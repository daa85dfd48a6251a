//! Byte-string helpers: searching, slicing, splitting on a delimiter byte,
//! joining, prefix/suffix tests, and decimal parsing.
//!
//! All exec functions are specified against spec-level functions over
//! `Seq<u8>`, which the protocol grammars in the rest of the crate reuse.

use vstd::prelude::*;

verus! {

/// ASCII `|`, the field delimiter of the name grammar.
pub const PIPE: u8 = 124;

/// ASCII `,`, delimiter of credentials and of pane-id lists.
pub const COMMA: u8 = 44;

/// ASCII `;`, delimiter between credentials and pane-id list in a hello.
pub const SEMICOLON: u8 = 59;

/// ASCII `@`, delimiter between user and host in a display name.
pub const AT_SIGN: u8 = 64;

/// ASCII space, the joiner for OS info words.
pub const SPACE: u8 = 32;

/// Index of the first occurrence of `sep` at or after `from`, if any.
pub fn find_byte_from(v: &Vec<u8>, sep: u8, from: usize) -> (r: Option<usize>)
    requires
        from <= v@.len(),
    ensures
        match r {
            Some(i) => from <= i < v@.len() && v@[i as int] == sep && forall|j: int|
                from <= j < i ==> v@[j] != sep,
            None => forall|j: int| from <= j < v@.len() ==> v@[j] != sep,
        },
{
    let mut i: usize = from;
    while i < v.len()
        invariant
            from <= i <= v@.len(),
            forall|j: int| from <= j < i ==> v@[j] != sep,
        decreases v@.len() - i,
    {
        if v[i] == sep {
            return Some(i);
        }
        i += 1;
    }
    None
}

/// Copy of `v[a..b]`.
pub fn subvec(v: &Vec<u8>, a: usize, b: usize) -> (r: Vec<u8>)
    requires
        a <= b <= v@.len(),
    ensures
        r@ == v@.subrange(a as int, b as int),
{
    let mut r: Vec<u8> = Vec::new();
    let mut i: usize = a;
    while i < b
        invariant
            a <= i <= b <= v@.len(),
            r@ == v@.subrange(a as int, i as int),
        decreases b - i,
    {
        r.push(v[i]);
        proof {
            assert(v@.subrange(a as int, i as int + 1) =~= v@.subrange(a as int, i as int).push(
                v@[i as int],
            ));
        }
        i += 1;
    }
    r
}

/// A fresh copy of `v`.
pub fn copy_bytes(v: &Vec<u8>) -> (r: Vec<u8>)
    ensures
        r@ == v@,
{
    let r = subvec(v, 0, v.len());
    proof {
        assert(v@.subrange(0, v@.len() as int) =~= v@);
    }
    r
}

/// Append a copy of `src` to `dst`.
pub fn append_bytes(dst: &mut Vec<u8>, src: &Vec<u8>)
    ensures
        final(dst)@ == old(dst)@ + src@,
{
    let ghost base = dst@;
    let mut i: usize = 0;
    while i < src.len()
        invariant
            i <= src@.len(),
            dst@ == base + src@.subrange(0, i as int),
        decreases src@.len() - i,
    {
        dst.push(src[i]);
        proof {
            assert(base + src@.subrange(0, i as int + 1) =~= (base + src@.subrange(
                0,
                i as int,
            )).push(src@[i as int]));
        }
        i += 1;
    }
    proof {
        assert(base + src@.subrange(0, src@.len() as int) =~= base + src@);
    }
}

/// Byte-wise equality of two vectors.
pub fn bytes_eq(a: &Vec<u8>, b: &Vec<u8>) -> (r: bool)
    ensures
        r == (a@ == b@),
{
    if a.len() != b.len() {
        proof {
            assert(a@.len() != b@.len());
        }
        return false;
    }
    let mut i: usize = 0;
    while i < a.len()
        invariant
            i <= a@.len(),
            a@.len() == b@.len(),
            forall|j: int| 0 <= j < i ==> a@[j] == b@[j],
        decreases a@.len() - i,
    {
        if a[i] != b[i] {
            return false;
        }
        i += 1;
    }
    proof {
        assert(a@ =~= b@);
    }
    true
}

pub open spec fn spec_starts_with(s: Seq<u8>, prefix: Seq<u8>) -> bool {
    s.len() >= prefix.len() && s.take(prefix.len() as int) == prefix
}

pub fn starts_with(v: &Vec<u8>, prefix: &Vec<u8>) -> (r: bool)
    ensures
        r == spec_starts_with(v@, prefix@),
{
    if v.len() < prefix.len() {
        return false;
    }
    let head = subvec(v, 0, prefix.len());
    bytes_eq(&head, prefix)
}

pub open spec fn spec_ends_with(s: Seq<u8>, suffix: Seq<u8>) -> bool {
    s.len() >= suffix.len() && s.skip(s.len() - suffix.len()) == suffix
}

pub fn ends_with(v: &Vec<u8>, suffix: &Vec<u8>) -> (r: bool)
    ensures
        r == spec_ends_with(v@, suffix@),
{
    if v.len() < suffix.len() {
        return false;
    }
    let tail = subvec(v, v.len() - suffix.len(), v.len());
    bytes_eq(&tail, suffix)
}

// ---------------------------------------------------------------------------
// Splitting at the first occurrence of a delimiter
// ---------------------------------------------------------------------------

/// Split at the first occurrence of `sep`: `Some((before, after))`, with the
/// delimiter itself dropped; `None` when `sep` does not occur.
pub open spec fn spec_split_once(s: Seq<u8>, sep: u8) -> Option<(Seq<u8>, Seq<u8>)>
    decreases s.len(),
{
    if s.len() == 0 {
        None
    } else if s[0] == sep {
        Some((Seq::empty(), s.skip(1)))
    } else {
        match spec_split_once(s.skip(1), sep) {
            None => None,
            Some(p) => Some((seq![s[0]] + p.0, p.1)),
        }
    }
}

proof fn lemma_split_once_at(s: Seq<u8>, sep: u8, i: int)
    requires
        0 <= i < s.len(),
        s[i] == sep,
        forall|j: int| 0 <= j < i ==> s[j] != sep,
    ensures
        spec_split_once(s, sep) == Some((s.take(i), s.skip(i + 1))),
    decreases i,
{
    if i == 0 {
        assert(s.take(0) =~= Seq::<u8>::empty());
    } else {
        let t = s.skip(1);
        assert(forall|j: int| 0 <= j < i - 1 ==> t[j] == s[j + 1] && t[j] != sep);
        lemma_split_once_at(t, sep, i - 1);
        assert(seq![s[0]] + t.take(i - 1) =~= s.take(i));
        assert(t.skip(i) =~= s.skip(i + 1));
    }
}

proof fn lemma_split_once_none(s: Seq<u8>, sep: u8)
    requires
        forall|j: int| 0 <= j < s.len() ==> s[j] != sep,
    ensures
        spec_split_once(s, sep) is None,
    decreases s.len(),
{
    if s.len() > 0 {
        let t = s.skip(1);
        assert(forall|j: int| 0 <= j < t.len() ==> t[j] == s[j + 1] && t[j] != sep);
        lemma_split_once_none(t, sep);
    }
}

pub fn split_once(v: &Vec<u8>, sep: u8) -> (r: Option<(Vec<u8>, Vec<u8>)>)
    ensures
        match r {
            Some(p) => spec_split_once(v@, sep) == Some((p.0@, p.1@)),
            None => spec_split_once(v@, sep) is None,
        },
{
    let n = v.len();
    match find_byte_from(v, sep, 0) {
        Some(i) => {
            let a = subvec(v, 0, i);
            let b = subvec(v, i + 1, n);
            proof {
                lemma_split_once_at(v@, sep, i as int);
            }
            Some((a, b))
        },
        None => {
            proof {
                lemma_split_once_none(v@, sep);
            }
            None
        },
    }
}

// ---------------------------------------------------------------------------
// Splitting on every occurrence of a delimiter
// ---------------------------------------------------------------------------

/// All fields of `s` delimited by `sep`; always at least one field, and an
/// empty input yields one empty field, as with `str::split`.
pub open spec fn spec_split(s: Seq<u8>, sep: u8) -> Seq<Seq<u8>>
    decreases s.len(),
{
    if s.len() == 0 {
        seq![Seq::<u8>::empty()]
    } else if s[0] == sep {
        seq![Seq::<u8>::empty()] + spec_split(s.skip(1), sep)
    } else {
        let rest = spec_split(s.skip(1), sep);
        seq![seq![s[0]] + rest[0]] + rest.skip(1)
    }
}

proof fn lemma_split_len(s: Seq<u8>, sep: u8)
    ensures
        spec_split(s, sep).len() >= 1,
    decreases s.len(),
{
    if s.len() > 0 {
        lemma_split_len(s.skip(1), sep);
    }
}

/// When `sep` has no occurrence, the whole input is the single field.
proof fn lemma_split_whole(s: Seq<u8>, sep: u8)
    requires
        forall|j: int| 0 <= j < s.len() ==> s[j] != sep,
    ensures
        spec_split(s, sep) == seq![s],
    decreases s.len(),
{
    if s.len() == 0 {
        assert(s =~= Seq::<u8>::empty());
        assert(seq![Seq::<u8>::empty()] =~= seq![s]);
    } else {
        let t = s.skip(1);
        assert(forall|j: int| 0 <= j < t.len() ==> t[j] == s[j + 1] && t[j] != sep);
        lemma_split_whole(t, sep);
        let rest = spec_split(t, sep);
        assert(rest[0] == t);
        assert(seq![s[0]] + t =~= s);
        assert(rest.skip(1) =~= Seq::<Seq<u8>>::empty());
        assert(seq![seq![s[0]] + rest[0]] + rest.skip(1) =~= seq![s]);
    }
}

/// Splitting at the first occurrence peels off one field.
proof fn lemma_split_first(s: Seq<u8>, sep: u8, i: int)
    requires
        0 <= i < s.len(),
        s[i] == sep,
        forall|j: int| 0 <= j < i ==> s[j] != sep,
    ensures
        spec_split(s, sep) == seq![s.take(i)] + spec_split(s.skip(i + 1), sep),
    decreases i,
{
    if i == 0 {
        assert(s.take(0) =~= Seq::<u8>::empty());
        assert(seq![Seq::<u8>::empty()] + spec_split(s.skip(1), sep) =~= seq![s.take(0)]
            + spec_split(s.skip(1), sep));
    } else {
        let t = s.skip(1);
        assert(forall|j: int| 0 <= j < i - 1 ==> t[j] == s[j + 1] && t[j] != sep);
        lemma_split_first(t, sep, i - 1);
        let rest = spec_split(t, sep);
        lemma_split_len(t.skip(i), sep);
        assert(rest[0] == t.take(i - 1));
        assert(rest.skip(1) =~= spec_split(t.skip(i), sep));
        assert(seq![s[0]] + t.take(i - 1) =~= s.take(i));
        assert(t.skip(i) =~= s.skip(i + 1));
        assert(seq![seq![s[0]] + rest[0]] + rest.skip(1) =~= seq![s.take(i)] + spec_split(
            s.skip(i + 1),
            sep,
        ));
    }
}

pub fn split_bytes(v: &Vec<u8>, sep: u8) -> (r: Vec<Vec<u8>>)
    ensures
        r@.map_values(|p: Vec<u8>| p@) == spec_split(v@, sep),
{
    let mut parts: Vec<Vec<u8>> = Vec::new();
    let mut start: usize = 0;
    let n = v.len();
    proof {
        assert(v@.skip(0) =~= v@);
        assert(Seq::<Vec<u8>>::empty().map_values(|p: Vec<u8>| p@) + spec_split(v@, sep)
            =~= spec_split(v@, sep));
    }
    loop
        invariant
            start <= v@.len(),
            n == v@.len(),
            spec_split(v@, sep) == parts@.map_values(|p: Vec<u8>| p@) + spec_split(
                v@.skip(start as int),
                sep,
            ),
        decreases v@.len() - start,
    {
        let ghost before = parts@;
        let ghost suffix = v@.skip(start as int);
        match find_byte_from(v, sep, start) {
            Some(i) => {
                let field = subvec(v, start, i);
                proof {
                    assert(suffix[i - start as int] == v@[i as int]);
                    assert(forall|j: int| 0 <= j < i - start as int ==> suffix[j] == v@[j
                        + start as int]);
                    lemma_split_first(suffix, sep, i - start as int);
                    assert(suffix.take(i - start as int) =~= v@.subrange(start as int, i as int));
                    assert(suffix.skip(i - start as int + 1) =~= v@.skip(i as int + 1));
                }
                parts.push(field);
                proof {
                    assert(parts@.map_values(|p: Vec<u8>| p@) =~= before.map_values(
                        |p: Vec<u8>| p@,
                    ).push(field@));
                    assert(before.map_values(|p: Vec<u8>| p@).push(field@) + spec_split(
                        v@.skip(i as int + 1),
                        sep,
                    ) =~= before.map_values(|p: Vec<u8>| p@) + (seq![field@] + spec_split(
                        v@.skip(i as int + 1),
                        sep,
                    )));
                }
                proof {
                    assert(i < n);
                }
                start = i + 1;
            },
            None => {
                let field = subvec(v, start, n);
                proof {
                    assert(forall|j: int| 0 <= j < suffix.len() ==> suffix[j] == v@[j
                        + start as int]);
                    lemma_split_whole(suffix, sep);
                    assert(suffix =~= v@.subrange(start as int, v@.len() as int));
                }
                parts.push(field);
                proof {
                    assert(parts@.map_values(|p: Vec<u8>| p@) =~= before.map_values(
                        |p: Vec<u8>| p@,
                    ).push(field@));
                    assert(before.map_values(|p: Vec<u8>| p@).push(field@) =~= before.map_values(
                        |p: Vec<u8>| p@,
                    ) + seq![field@]);
                }
                return parts;
            },
        }
    }
}

// ---------------------------------------------------------------------------
// Joining fields with a delimiter
// ---------------------------------------------------------------------------

pub open spec fn spec_join(parts: Seq<Seq<u8>>, sep: u8) -> Seq<u8>
    decreases parts.len(),
{
    if parts.len() == 0 {
        Seq::empty()
    } else if parts.len() == 1 {
        parts[0]
    } else {
        parts[0] + seq![sep] + spec_join(parts.skip(1), sep)
    }
}

proof fn lemma_join_push(parts: Seq<Seq<u8>>, q: Seq<u8>, sep: u8)
    requires
        parts.len() >= 1,
    ensures
        spec_join(parts.push(q), sep) == spec_join(parts, sep) + seq![sep] + q,
    decreases parts.len(),
{
    let w = parts.push(q);
    if parts.len() == 1 {
        assert(w.skip(1) =~= seq![q]);
        assert(w[0] == parts[0]);
        assert(spec_join(seq![q], sep) == q);
        assert(spec_join(w, sep) == w[0] + seq![sep] + spec_join(w.skip(1), sep));
    } else {
        assert(w.skip(1) =~= parts.skip(1).push(q));
        lemma_join_push(parts.skip(1), q, sep);
        assert(w[0] == parts[0]);
        assert(spec_join(w, sep) == w[0] + seq![sep] + spec_join(w.skip(1), sep));
        assert(spec_join(parts, sep) == parts[0] + seq![sep] + spec_join(parts.skip(1), sep));
        assert(parts[0] + seq![sep] + (spec_join(parts.skip(1), sep) + seq![sep] + q) =~= (parts[0]
            + seq![sep] + spec_join(parts.skip(1), sep)) + seq![sep] + q);
    }
}

/// Join `parts[from..to]` with `sep` between consecutive fields.
pub fn join_range(parts: &Vec<Vec<u8>>, from: usize, to: usize, sep: u8) -> (r: Vec<u8>)
    requires
        from <= to <= parts@.len(),
    ensures
        r@ == spec_join(
            parts@.subrange(from as int, to as int).map_values(|p: Vec<u8>| p@),
            sep,
        ),
{
    let mut r: Vec<u8> = Vec::new();
    if from == to {
        proof {
            assert(parts@.subrange(from as int, to as int).map_values(|p: Vec<u8>| p@)
                =~= Seq::<Seq<u8>>::empty());
        }
        return r;
    }
    append_bytes(&mut r, &parts[from]);
    proof {
        let one = parts@.subrange(from as int, from as int + 1).map_values(|p: Vec<u8>| p@);
        assert(one =~= seq![parts@[from as int]@]);
        assert(Seq::<u8>::empty() + parts@[from as int]@ =~= parts@[from as int]@);
    }
    let mut i: usize = from + 1;
    while i < to
        invariant
            from + 1 <= i <= to <= parts@.len(),
            r@ == spec_join(
                parts@.subrange(from as int, i as int).map_values(|p: Vec<u8>| p@),
                sep,
            ),
        decreases to - i,
    {
        r.push(sep);
        append_bytes(&mut r, &parts[i]);
        proof {
            let prev = parts@.subrange(from as int, i as int).map_values(|p: Vec<u8>| p@);
            let next = parts@.subrange(from as int, i as int + 1).map_values(|p: Vec<u8>| p@);
            assert(next =~= prev.push(parts@[i as int]@));
            lemma_join_push(prev, parts@[i as int]@, sep);
        }
        i += 1;
    }
    r
}

// ---------------------------------------------------------------------------
// Decimal parsing (the grammar of unsigned integer literals: `+`? digit+)
// ---------------------------------------------------------------------------

pub open spec fn is_dec_digit(b: u8) -> bool {
    48 <= b <= 57
}

pub open spec fn all_dec_digits(s: Seq<u8>) -> bool {
    forall|i: int| 0 <= i < s.len() ==> is_dec_digit(s[i])
}

/// Numeric value of a digit string, most significant digit first.
pub open spec fn dec_value(s: Seq<u8>) -> int
    decreases s.len(),
{
    if s.len() == 0 {
        0
    } else {
        dec_value(s.drop_last()) * 10 + s.last() - 48
    }
}

/// The digit part of a decimal literal: everything after an optional leading
/// `+` sign.
pub open spec fn dec_digits_part(s: Seq<u8>) -> Seq<u8> {
    if s.len() > 0 && s[0] == 43 {
        s.skip(1)
    } else {
        s
    }
}

pub open spec fn is_dec_u64(s: Seq<u8>) -> bool {
    let d = dec_digits_part(s);
    d.len() >= 1 && all_dec_digits(d) && dec_value(d) <= u64::MAX
}

pub open spec fn spec_parse_u64(s: Seq<u8>) -> Option<u64> {
    if is_dec_u64(s) {
        Some(dec_value(dec_digits_part(s)) as u64)
    } else {
        None
    }
}

proof fn lemma_dec_value_nonneg(s: Seq<u8>)
    requires
        all_dec_digits(s),
    ensures
        dec_value(s) >= 0,
    decreases s.len(),
{
    if s.len() > 0 {
        assert(all_dec_digits(s.drop_last()));
        lemma_dec_value_nonneg(s.drop_last());
    }
}

/// A digit string's value only grows as more digits are appended.
proof fn lemma_dec_value_take_le(s: Seq<u8>, k: int)
    requires
        all_dec_digits(s),
        0 <= k <= s.len(),
    ensures
        dec_value(s.take(k)) <= dec_value(s),
    decreases s.len() - k,
{
    if k < s.len() {
        lemma_dec_value_take_le(s, k + 1);
        let t = s.take(k + 1);
        assert(t.drop_last() =~= s.take(k));
        assert(forall|i: int| 0 <= i < k ==> s.take(k)[i] == s[i]);
        assert(all_dec_digits(s.take(k)));
        lemma_dec_value_nonneg(s.take(k));
        assert(t.last() == s[k]);
        assert(is_dec_digit(s[k]));
        assert(dec_value(t) == dec_value(s.take(k)) * 10 + t.last() - 48);
        assert(dec_value(s.take(k)) * 10 >= dec_value(s.take(k)));
    } else {
        assert(s.take(k) =~= s);
    }
}

fn parse_digits_u64(v: &Vec<u8>, from: usize) -> (r: Option<u64>)
    requires
        from <= v@.len(),
    ensures
        ({
            let d = v@.skip(from as int);
            match r {
                Some(n) => d.len() >= 1 && all_dec_digits(d) && dec_value(d) == n,
                None => !(d.len() >= 1 && all_dec_digits(d) && dec_value(d) <= u64::MAX),
            }
        }),
{
    let ghost d = v@.skip(from as int);
    if from == v.len() {
        return None;
    }
    let mut acc: u64 = 0;
    let mut i: usize = from;
    while i < v.len()
        invariant
            from <= i <= v@.len(),
            d == v@.skip(from as int),
            all_dec_digits(d.take(i - from)),
            acc == dec_value(d.take(i - from)),
        decreases v@.len() - i,
    {
        let b = v[i];
        proof {
            assert(d[i - from] == v@[i as int]);
        }
        if b < 48 || b > 57 {
            proof {
                assert(!is_dec_digit(d[i - from]));
            }
            return None;
        }
        let digit: u64 = (b - 48) as u64;
        let next = match acc.checked_mul(10) {
            Some(x) => x.checked_add(digit),
            None => None,
        };
        let ghost t = d.take(i - from + 1);
        proof {
            assert(t.drop_last() =~= d.take(i - from));
            assert(t.last() == d[i - from]);
            assert(dec_value(t) == acc * 10 + b - 48);
        }
        match next {
            Some(x) => {
                acc = x;
            },
            None => {
                proof {
                    assert(dec_value(t) > u64::MAX);
                    assert(all_dec_digits(t));
                    if all_dec_digits(d) && dec_value(d) <= u64::MAX {
                        lemma_dec_value_take_le(d, i - from + 1);
                    }
                }
                return None;
            },
        }
        i += 1;
    }
    proof {
        assert(d.take(v@.len() - from) =~= d);
    }
    Some(acc)
}

/// Parse an unsigned decimal literal (`+`? digit+) that fits in a `u64`.
pub fn parse_u64_dec(v: &Vec<u8>) -> (r: Option<u64>)
    ensures
        r == spec_parse_u64(v@),
{
    let from: usize = if v.len() > 0 && v[0] == 43 {
        1
    } else {
        0
    };
    proof {
        assert(dec_digits_part(v@) == v@.skip(from as int));
    }
    parse_digits_u64(v, from)
}

pub open spec fn is_dec_u32(s: Seq<u8>) -> bool {
    let d = dec_digits_part(s);
    d.len() >= 1 && all_dec_digits(d) && dec_value(d) <= u32::MAX
}

pub open spec fn spec_parse_u32(s: Seq<u8>) -> Option<u32> {
    if is_dec_u32(s) {
        Some(dec_value(dec_digits_part(s)) as u32)
    } else {
        None
    }
}

/// Parse an unsigned decimal literal (`+`? digit+) that fits in a `u32`.
pub fn parse_u32_dec(v: &Vec<u8>) -> (r: Option<u32>)
    ensures
        r == spec_parse_u32(v@),
{
    let from: usize = if v.len() > 0 && v[0] == 43 {
        1
    } else {
        0
    };
    proof {
        assert(dec_digits_part(v@) == v@.skip(from as int));
    }
    match parse_digits_u64(v, from) {
        Some(n) => {
            if n <= 0xffff_ffffu64 {
                Some(n as u32)
            } else {
                None
            }
        },
        None => {
            proof {
                let d = dec_digits_part(v@);
                if d.len() >= 1 && all_dec_digits(d) && dec_value(d) <= u32::MAX {
                    assert(dec_value(d) <= u64::MAX);
                }
            }
            None
        },
    }
}

} // verus!
