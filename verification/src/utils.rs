//! General-purpose utilities: identifiers and timestamps, hashing,
//! byte-size formatting, filename handling and string truncation.

use vstd::prelude::*;
use vstd::string::StringSliceAdditionalSpecFns;
use crate::clock::{is_hyphenated_uuid, new_uuid_text, utc_now_millis, utc_now_timestamp};
use crate::conversation_export::{push_signed, signed_decimal};

verus! {

/// The 31-multiplier rolling hash over a byte sequence, modulo 2^32.
pub open spec fn spec_string_hash(bytes: Seq<u8>) -> u32
    decreases bytes.len(),
{
    if bytes.len() == 0 {
        0
    } else {
        let h = spec_string_hash(bytes.drop_last());
        ((h as int * 31 + bytes.last() as int) % 0x1_0000_0000) as u32
    }
}

/// 31 raised to the power `n`.
pub open spec fn pow31(n: nat) -> int
    decreases n,
{
    if n == 0 {
        1
    } else {
        31 * pow31((n - 1) as nat)
    }
}

proof fn lemma_hash_step(u: int, x: int, ha: int, p: int, hb1: int)
    requires
        u == ha * p + hb1,
    ensures
        ((u % 0x1_0000_0000) * 31 + x) % 0x1_0000_0000 == (ha * (31 * p) + (hb1 * 31 + x) % 0x1_0000_0000)
            % 0x1_0000_0000,
{
    let m = 0x1_0000_0000int;
    vstd::arithmetic::div_mod::lemma_add_mod_noop((u % m) * 31, x, m);
    vstd::arithmetic::div_mod::lemma_mul_mod_noop_left(u, 31, m);
    vstd::arithmetic::div_mod::lemma_add_mod_noop(u * 31, x, m);
    vstd::arithmetic::div_mod::lemma_mod_twice((u % m) * 31, m);
    vstd::arithmetic::div_mod::lemma_add_mod_noop_right(ha * (31 * p), hb1 * 31 + x, m);
    assert(u * 31 + x == ha * (31 * p) + (hb1 * 31 + x)) by (nonlinear_arith)
        requires
            u == ha * p + hb1,
    ;
    vstd::arithmetic::div_mod::lemma_mod_twice(x, m);
    assert(((u % m) * 31 + x) % m == ((((u % m) * 31) % m) + (x % m)) % m);
    assert((((u % m) * 31) % m) == (u * 31) % m);
    assert(((u * 31) % m + x % m) % m == (u * 31 + x) % m);
}

/// The hash of two texts joined is the hash of the first, shifted by one
/// factor of 31 per byte of the second, plus the hash of the second, all
/// modulo 2^32.
pub proof fn law_string_hash_concat(a: Seq<u8>, b: Seq<u8>)
    ensures
        spec_string_hash(a + b) as int == (spec_string_hash(a) as int * pow31(b.len()) + spec_string_hash(b) as int)
            % 0x1_0000_0000,
    decreases b.len(),
{
    let m = 0x1_0000_0000int;
    if b.len() == 0 {
        assert(a + b =~= a);
        vstd::arithmetic::div_mod::lemma_small_mod(spec_string_hash(a) as nat, m as nat);
    } else {
        let b1 = b.drop_last();
        law_string_hash_concat(a, b1);
        assert((a + b).drop_last() =~= a + b1);
        assert((a + b).last() == b.last());
        let ha = spec_string_hash(a) as int;
        let hb1 = spec_string_hash(b1) as int;
        let p = pow31(b1.len());
        let u = ha * p + hb1;
        lemma_hash_step(u, b.last() as int, ha, p, hb1);
    }
}

/// The hash of two strings joined (the UTF-8 bytes of the first followed by
/// those of the second) is the hash of the first, shifted by one factor of
/// 31 per byte of the second, plus the hash of the second, modulo 2^32.
pub proof fn law_string_hash_join(a: Seq<char>, b: Seq<char>)
    ensures
        spec_string_hash(vstd::utf8::encode_utf8(a + b)) as int == (spec_string_hash(vstd::utf8::encode_utf8(a)) as int
            * pow31(vstd::utf8::encode_utf8(b).len()) + spec_string_hash(vstd::utf8::encode_utf8(b)) as int)
            % 0x1_0000_0000,
{
    lemma_encode_concat(a, b);
    law_string_hash_concat(vstd::utf8::encode_utf8(a), vstd::utf8::encode_utf8(b));
}

/// Generates a consistent hash for a string: each UTF-8 byte `b` updates the
/// hash as `h * 31 + b` with 32-bit wrap-around, starting from 0.
pub fn string_hash(s: &str) -> (hash: u32)
    ensures
        hash == spec_string_hash(s.spec_bytes()),
{
    let bytes = s.as_bytes();
    let mut hash: u32 = 0;
    let mut i: usize = 0;
    while i < bytes.len()
        invariant
            bytes@ == s.spec_bytes(),
            i <= bytes@.len(),
            hash == spec_string_hash(bytes@.take(i as int)),
        decreases bytes@.len() - i,
    {
        let b = bytes[i];
        assert(bytes@.take(i as int + 1).drop_last() =~= bytes@.take(i as int));
        hash = hash.wrapping_mul(31).wrapping_add(b as u32);
        i = i + 1;
    }
    assert(bytes@.take(bytes@.len() as int) =~= bytes@);
    hash
}

} // verus!

verus! {

/// `2^n`.
pub open spec fn p2(n: nat) -> nat
    decreases n,
{
    if n == 0 {
        1
    } else {
        2 * p2((n - 1) as nat)
    }
}

/// `1024^k`.
pub open spec fn p1024(k: nat) -> nat
    decreases k,
{
    if k == 0 {
        1
    } else {
        1024 * p1024((k - 1) as nat)
    }
}

/// How many low bits an integer loses when held in a 53-bit significand.
pub open spec fn f64_shift(n: nat) -> nat
    decreases n,
{
    if n < 0x20_0000_0000_0000 {
        0
    } else {
        1 + f64_shift(n / 2)
    }
}

/// `a / d` rounded to the nearest integer, ties to even.
pub open spec fn round_div_even(a: nat, d: nat) -> nat {
    let q = a / d;
    let r = a % d;
    if 2 * r > d || (2 * r == d && q % 2 == 1) {
        q + 1
    } else {
        q
    }
}

/// The value of the nearest 64-bit float to `n` (ties to even).
pub open spec fn f64_value(n: nat) -> nat {
    round_div_even(n, p2(f64_shift(n))) * p2(f64_shift(n))
}

/// The unit index of a byte count: how many times it can be divided by
/// 1024 while staying at least 1024, at most 4 (terabytes).
pub open spec fn unit_index(r: nat, j: nat) -> nat
    decreases 4 - j,
{
    if j < 4 && r >= p1024(j + 1) {
        unit_index(r, j + 1)
    } else {
        j
    }
}

/// The unit names.
pub open spec fn unit_name(k: nat) -> Seq<char> {
    if k == 0 {
        "B"@
    } else if k == 1 {
        "KB"@
    } else if k == 2 {
        "MB"@
    } else if k == 3 {
        "GB"@
    } else {
        "TB"@
    }
}

/// Human-readable size: `0 B`; whole bytes below 1 KB as `<n> B`; otherwise
/// the size (taken as a 64-bit float) in the largest unit up to TB in which
/// it is at least 1, with one decimal rounded half to even, as in
/// `1.5 KB`.
pub open spec fn format_bytes_text(bytes: nat) -> Seq<char> {
    if bytes == 0 {
        "0 B"@
    } else {
        let r = f64_value(bytes);
        let k = unit_index(r, 0);
        if k == 0 {
            crate::text::decimal(bytes) + " B"@
        } else {
            let t = round_div_even(r * 10, p1024(k));
            crate::text::decimal(t / 10) + "."@ + crate::text::decimal(t % 10) + " "@ + unit_name(k)
        }
    }
}

fn round_div_even_exec(a: u128, d: u128) -> (q: u128)
    requires
        d > 0,
        a / d < u128::MAX,
    ensures
        q == round_div_even(a as nat, d as nat),
{
    let q = a / d;
    let r = a % d;
    assert(r < d);
    if r > d - r || (r == d - r && q % 2 == 1) {
        q + 1
    } else {
        q
    }
}

proof fn lemma_p1024_bound(k: nat)
    requires
        k <= 4,
    ensures
        1 <= p1024(k) <= 0x100_0000_0000,
{
    reveal_with_fuel(p1024, 5);
}

proof fn lemma_div_div2(b: nat, p: nat)
    requires
        p > 0,
    ensures
        (b / p) / 2 == b / (p * 2),
{
    vstd::arithmetic::div_mod::lemma_div_denominator(b as int, p as int, 2);
}

/// Formats a byte count into a human-readable string.
pub fn format_bytes(bytes: usize) -> (s: String)
    ensures
        s@ == format_bytes_text(bytes as nat),
{
    if bytes == 0 {
        return "0 B".to_string();
    }
    let b = bytes as u128;
    // The float value of the size: drop the bits a 53-bit significand loses.
    let mut m: u128 = b;
    let mut p: u128 = 1;
    let ghost mut s: nat = 0;
    while m >= 0x20_0000_0000_0000
        invariant
            p == p2(s),
            m == b / p,
            f64_shift(b as nat) == s + f64_shift(m as nat),
            p <= b,
            b < 0x1_0000_0000_0000_0000,
            p > 0,
        decreases m,
    {
        proof {
            lemma_div_div2(b as nat, p as nat);
            assert(p * 2 <= b) by (nonlinear_arith)
                requires
                    m == b / p,
                    m >= 2,
                    p > 0,
            {
                vstd::arithmetic::div_mod::lemma_fundamental_div_mod(b as int, p as int);
            }
        }
        m = m / 2;
        p = p * 2;
        proof {
            s = s + 1;
        }
    }
    proof {
        assert(f64_shift(m as nat) == 0);
        assert(b / p < 0x20_0000_0000_0000);
    }
    let q = round_div_even_exec(b, p);
    assert(q <= 0x20_0000_0000_0000);
    assert(q * p <= 0x20_0000_0000_0000 * 0x1_0000_0000_0000_0000) by (nonlinear_arith)
        requires
            q <= 0x20_0000_0000_0000,
            p <= 0x1_0000_0000_0000_0000,
    ;
    let r = q * p;
    assert(r == f64_value(b as nat));
    // The unit: divide by 1024 while the size stays at least 1024.
    let mut k: usize = 0;
    let mut d: u128 = 1;
    while k < 4 && r >= d * 1024
        invariant
            k <= 4,
            d == p1024(k as nat),
            d <= 0x100_0000_0000,
            unit_index(r as nat, 0) == unit_index(r as nat, k as nat),
        decreases 4 - k,
    {
        proof {
            lemma_p1024_bound((k + 1) as nat);
        }
        d = d * 1024;
        k = k + 1;
    }
    let mut out: Vec<char> = Vec::new();
    if k == 0 {
        crate::text::push_digits(b, 10, &mut out);
        crate::text::push_str(&mut out, " B");
    } else {
        assert(r <= 0x2_0000_0000_0000_0000) by (nonlinear_arith)
            requires
                r == round_div_even(b as nat, p as nat) * p,
                b < 0x1_0000_0000_0000_0000,
                p > 0,
                p <= b,
        {
            vstd::arithmetic::div_mod::lemma_fundamental_div_mod(b as int, p as int);
        }
        proof {
            lemma_p1024_bound(k as nat);
        }
        let t = round_div_even_exec(r * 10, d);
        crate::text::push_digits(t / 10, 10, &mut out);
        crate::text::push_str(&mut out, ".");
        crate::text::push_digits(t % 10, 10, &mut out);
        crate::text::push_str(&mut out, " ");
        let unit = if k == 1 {
            "KB"
        } else if k == 2 {
            "MB"
        } else if k == 3 {
            "GB"
        } else {
            "TB"
        };
        crate::text::push_str(&mut out, unit);
    }
    let res = crate::text::string_from_chars(out.as_slice());
    assert(res@ =~= format_bytes_text(bytes as nat));
    res
}

} // verus!

verus! {

/// Characters not allowed in file names.
pub open spec fn is_invalid_filename_char(c: char) -> bool {
    c == '<' || c == '>' || c == ':' || c == '"' || c == '/' || c == '\\' || c == '|' || c == '?'
        || c == '*'
}

/// Each invalid character replaced by `_`.
pub open spec fn replace_invalid(s: Seq<char>) -> Seq<char> {
    Seq::new(s.len(), |i: int| if is_invalid_filename_char(s[i]) { '_' } else { s[i] })
}

/// The sanitized file name: invalid characters replaced by `_`, then white
/// space and then dots trimmed from both ends; `unnamed` if nothing is left.
pub open spec fn sanitized(s: Seq<char>) -> Seq<char> {
    let t = crate::text::trim_char(crate::text::trim_space(replace_invalid(s)), '.');
    if t.len() == 0 {
        "unnamed"@
    } else {
        t
    }
}

/// Sanitizes a file name by replacing invalid characters and trimming.
pub fn sanitize_filename(filename: &str) -> (s: String)
    ensures
        s@ == sanitized(filename@),
{
    let v = crate::text::chars_of(filename);
    let mut replaced: Vec<char> = Vec::new();
    let mut i: usize = 0;
    while i < v.len()
        invariant
            i <= v@.len(),
            replaced@ =~= replace_invalid(v@).subrange(0, i as int),
        decreases v@.len() - i,
    {
        let c = v[i];
        if c == '<' || c == '>' || c == ':' || c == '"' || c == '/' || c == '\\' || c == '|' || c
            == '?' || c == '*' {
            replaced.push('_');
        } else {
            replaced.push(c);
        }
        i = i + 1;
    }
    assert(replaced@ =~= replace_invalid(v@));
    let trimmed = crate::text::trim_space_chars(replaced.as_slice());
    let dots = crate::text::trim_char_chars(trimmed.as_slice(), '.');
    if dots.len() == 0 {
        "unnamed".to_string()
    } else {
        crate::text::string_from_chars(dots.as_slice())
    }
}

/// The truncated text: the text itself when its UTF-8 length is at most
/// `max_len`; otherwise `...` when `max_len` is at most 3, else the first
/// `max_len - 3` bytes followed by `...`.
pub open spec fn truncated(s: Seq<char>, max_len: nat) -> Seq<char> {
    let bytes = vstd::utf8::encode_utf8(s);
    if bytes.len() <= max_len {
        s
    } else if max_len <= 3 {
        "..."@
    } else {
        vstd::utf8::decode_utf8(bytes.subrange(0, max_len - 3)) + "..."@
    }
}

/// Truncates a string to the given length in bytes, marking the cut with an
/// ellipsis. The cut must fall on a character boundary.
pub fn truncate_string(s: &str, max_len: usize) -> (r: String)
    requires
        s.spec_bytes().len() > max_len > 3 ==> vstd::utf8::is_char_boundary(
            s.spec_bytes(),
            max_len - 3,
        ),
    ensures
        r@ == truncated(s@, max_len as nat),
{
    let byte_count = s.as_bytes().len();
    if byte_count <= max_len {
        let r = s.to_string();
        assert(r@ == truncated(s@, max_len as nat));
        r
    } else if max_len <= 3 {
        let r = "...".to_string();
        assert(r@ == truncated(s@, max_len as nat));
        r
    } else {
        let (head, _tail) = s.split_at(max_len - 3);
        proof {
            vstd::utf8::encode_utf8_decode_utf8(head@);
            assert(head.spec_bytes() == vstd::utf8::encode_utf8(head@));
            assert(head@ == vstd::utf8::decode_utf8(s.spec_bytes().subrange(0, max_len - 3)));
        }
        let mut out = crate::text::chars_of(head);
        crate::text::push_str(&mut out, "...");
        let r = crate::text::string_from_chars(out.as_slice());
        assert(r@ == truncated(s@, max_len as nat));
        r
    }
}

proof fn lemma_encode_concat(a: Seq<char>, b: Seq<char>)
    ensures
        vstd::utf8::encode_utf8(a + b) == vstd::utf8::encode_utf8(a) + vstd::utf8::encode_utf8(b),
    decreases a.len(),
{
    if a.len() == 0 {
        assert(a + b =~= b);
        assert(vstd::utf8::encode_utf8(a) =~= Seq::<u8>::empty());
        assert(Seq::<u8>::empty() + vstd::utf8::encode_utf8(b) =~= vstd::utf8::encode_utf8(b));
    } else {
        assert((a + b).drop_first() =~= a.drop_first() + b);
        assert((a + b)[0] == a[0]);
        lemma_encode_concat(a.drop_first(), b);
        assert(vstd::utf8::encode_utf8(a + b) =~= vstd::utf8::encode_utf8(a) + vstd::utf8::encode_utf8(b));
    }
}

/// A truncated text is at most `max_len` bytes long once `max_len` leaves
/// room for the ellipsis (at least 3).
pub proof fn law_truncated_fits(s: Seq<char>, max_len: nat)
    requires
        max_len >= 3,
        vstd::utf8::encode_utf8(s).len() > max_len > 3 ==> vstd::utf8::is_char_boundary(
            vstd::utf8::encode_utf8(s),
            max_len - 3,
        ),
    ensures
        vstd::utf8::encode_utf8(truncated(s, max_len)).len() <= max_len,
{
    let bytes = vstd::utf8::encode_utf8(s);
    reveal_strlit("...");
    let dots = "..."@;
    assert(vstd::utf8::is_ascii_chars(dots));
    vstd::utf8::is_ascii_chars_encode_utf8(dots);
    if bytes.len() <= max_len {
    } else if max_len <= 3 {
    } else {
        let prefix = bytes.subrange(0, max_len - 3);
        vstd::utf8::encode_utf8_valid_utf8(s);
        vstd::utf8::valid_utf8_split(bytes, max_len - 3);
        vstd::utf8::decode_utf8_encode_utf8(prefix);
        lemma_encode_concat(vstd::utf8::decode_utf8(prefix), dots);
    }
}

/// Index of the last `/` in `p`, or -1.
pub open spec fn last_index_of(p: Seq<char>, c: char) -> int
    decreases p.len(),
{
    if p.len() == 0 {
        -1
    } else if p.last() == c {
        p.len() - 1
    } else {
        last_index_of(p.drop_last(), c)
    }
}

/// The last path component that is neither empty nor `.`, if any.
pub open spec fn last_component(p: Seq<char>) -> Option<Seq<char>>
    decreases p.len(),
{
    if p.len() == 0 {
        None
    } else if p.last() == '/' {
        last_component(p.drop_last())
    } else {
        let j = last_index_of(p, '/');
        let piece = p.subrange(j + 1, p.len() as int);
        if piece == "."@ {
            proof {
                lemma_last_index_bounds(p, '/');
            }
            last_component(p.subrange(0, j + 1))
        } else {
            Some(piece)
        }
    }
}

/// The file name of a path: its last component, unless that is `..`.
pub open spec fn file_name(p: Seq<char>) -> Option<Seq<char>> {
    match last_component(p) {
        Some(c) => if c == ".."@ {
            None
        } else {
            Some(c)
        },
        None => None,
    }
}

/// The extension of a path: what follows the last `.` of the file name,
/// when that dot is not the name's first character.
pub open spec fn extension(p: Seq<char>) -> Option<Seq<char>> {
    match file_name(p) {
        Some(name) => {
            let d = last_index_of(name, '.');
            if d <= 0 {
                None
            } else {
                Some(name.subrange(d + 1, name.len() as int))
            }
        },
        None => None,
    }
}

pub proof fn lemma_last_index_bounds(p: Seq<char>, c: char)
    ensures
        -1 <= last_index_of(p, c) < p.len(),
        last_index_of(p, c) >= 0 ==> p[last_index_of(p, c)] == c,
        forall|k: int| last_index_of(p, c) < k < p.len() ==> p[k] != c,
    decreases p.len(),
{
    if p.len() > 0 && p.last() != c {
        lemma_last_index_bounds(p.drop_last(), c);
        assert forall|k: int| last_index_of(p, c) < k < p.len() implies p[k] != c by {
            if k < p.len() - 1 {
                assert(p[k] == p.drop_last()[k]);
            }
        }
    }
}

fn last_index_exec(v: &[char], hi: usize, c: char) -> (r: Option<usize>)
    requires
        hi <= v@.len(),
    ensures
        match r {
            Some(k) => k == last_index_of(v@.subrange(0, hi as int), c),
            None => -1 == last_index_of(v@.subrange(0, hi as int), c),
        },
{
    let mut i: usize = hi;
    while i > 0 && v[i - 1] != c
        invariant
            i <= hi <= v@.len(),
            last_index_of(v@.subrange(0, hi as int), c) == last_index_of(v@.subrange(0, i as int), c),
        decreases i,
    {
        assert(v@.subrange(0, i as int).drop_last() =~= v@.subrange(0, i as int - 1));
        i = i - 1;
    }
    if i == 0 {
        None
    } else {
        Some(i - 1)
    }
}

fn last_component_exec(v: &[char]) -> (r: Option<Vec<char>>)
    ensures
        match last_component(v@) {
            Some(c) => r is Some && r->0@ == c,
            None => r is None,
        },
{
    let mut hi: usize = v.len();
    assert(v@.subrange(0, hi as int) =~= v@);
    loop
        invariant
            hi <= v@.len(),
            last_component(v@) == last_component(v@.subrange(0, hi as int)),
        decreases hi,
    {
        if hi == 0 {
            return None;
        }
        let ghost p = v@.subrange(0, hi as int);
        if v[hi - 1] == '/' {
            assert(p.drop_last() =~= v@.subrange(0, hi as int - 1));
            hi = hi - 1;
        } else {
            let j = last_index_exec(v, hi, '/');
            proof {
                lemma_last_index_bounds(p, '/');
            }
            let start = match j {
                Some(k) => k + 1,
                None => 0,
            };
            assert(start == last_index_of(p, '/') + 1);
            let mut piece: Vec<char> = Vec::new();
            let mut i: usize = start;
            while i < hi
                invariant
                    start <= i <= hi <= v@.len(),
                    piece@ == v@.subrange(start as int, i as int),
                decreases hi - i,
            {
                piece.push(v[i]);
                assert(piece@ =~= v@.subrange(start as int, i as int + 1));
                i = i + 1;
            }
            assert(piece@ =~= p.subrange(start as int, p.len() as int));
            proof {
                reveal_strlit(".");
            }
            if piece.len() == 1 && piece[0] == '.' {
                assert(piece@ =~= "."@);
                assert(p.subrange(0, start as int) =~= v@.subrange(0, start as int));
                hi = start;
            } else {
                assert(piece@ != "."@);
                return Some(piece);
            }
        }
    }
}

/// Checks whether the extension of `filename` is one of the allowed
/// extensions, ignoring ASCII case. A name without an extension is never
/// allowed.
pub fn validate_file_extension(filename: &str, allowed_extensions: &[&str]) -> (b: bool)
    ensures
        b == match extension(filename@) {
            Some(e) => exists|i: int|
                0 <= i < allowed_extensions@.len() && crate::text::eq_ignore_ascii_case(
                    (#[trigger] allowed_extensions@[i])@,
                    e,
                ),
            None => false,
        },
{
    let v = crate::text::chars_of(filename);
    let comp = last_component_exec(v.as_slice());
    let name = match comp {
        Some(c) => c,
        None => {
            return false;
        },
    };
    proof {
        reveal_strlit("..");
    }
    if name.len() == 2 && name[0] == '.' && name[1] == '.' {
        assert(name@ =~= ".."@);
        return false;
    }
    proof {
        if name@ == ".."@ {
            assert(name@.len() == 2 && name@[0] == '.' && name@[1] == '.');
        }
    }
    let dd = last_index_exec(name.as_slice(), name.len(), '.');
    assert(name@.subrange(0, name@.len() as int) =~= name@);
    let d = match dd {
        Some(k) => k,
        None => {
            return false;
        },
    };
    if d == 0 {
        return false;
    }
    proof {
        lemma_last_index_bounds(name@, '.');
    }
    let mut ext: Vec<char> = Vec::new();
    let mut i: usize = d + 1;
    while i < name.len()
        invariant
            d + 1 <= i <= name@.len(),
            ext@ == name@.subrange(d + 1, i as int),
        decreases name@.len() - i,
    {
        ext.push(name[i]);
        assert(ext@ =~= name@.subrange(d + 1, i as int + 1));
        i = i + 1;
    }
    let mut k: usize = 0;
    while k < allowed_extensions.len()
        invariant
            k <= allowed_extensions@.len(),
            extension(filename@) == Some(ext@),
            forall|j: int|
                0 <= j < k ==> !crate::text::eq_ignore_ascii_case((#[trigger] allowed_extensions@[j])@, ext@),
        decreases allowed_extensions@.len() - k,
    {
        let a = crate::text::chars_of(allowed_extensions[k]);
        if crate::text::chars_eq_ignore_ascii_case(a.as_slice(), ext.as_slice()) {
            return true;
        }
        k = k + 1;
    }
    false
}

} // verus!

verus! {

/// The map held by a list of key-value pairs (a later pair overrides an
/// earlier one with the same key).
pub open spec fn pairs_map(v: Seq<(String, String)>) -> Map<Seq<char>, Seq<char>>
    decreases v.len(),
{
    if v.len() == 0 {
        Map::empty()
    } else {
        pairs_map(v.drop_last()).insert(v.last().0@, v.last().1@)
    }
}

/// No key occurs twice among the pairs (the pairs are a map's entries).
pub open spec fn distinct_keys(v: Seq<(String, String)>) -> bool {
    forall|i: int, j: int| 0 <= i < j < v.len() ==> v[i].0@ != v[j].0@
}

proof fn lemma_pairs_map_update(v: Seq<(String, String)>, j: int, p: (String, String))
    requires
        distinct_keys(v),
        0 <= j < v.len(),
        v[j].0@ == p.0@,
    ensures
        pairs_map(v.update(j, p)) =~= pairs_map(v).insert(p.0@, p.1@),
        distinct_keys(v.update(j, p)),
    decreases v.len(),
{
    let w = v.update(j, p);
    if j == v.len() - 1 {
        assert(w.drop_last() =~= v.drop_last());
    } else {
        let d = v.drop_last();
        assert(w.drop_last() =~= d.update(j, p));
        lemma_pairs_map_update(d, j, p);
        assert(v.last().0@ != p.0@);
    }
}

proof fn lemma_pairs_map_contains(v: Seq<(String, String)>, k: Seq<char>)
    ensures
        pairs_map(v).contains_key(k) <==> exists|i: int| 0 <= i < v.len() && #[trigger] v[i].0@ == k,
    decreases v.len(),
{
    if v.len() > 0 {
        lemma_pairs_map_contains(v.drop_last(), k);
        if pairs_map(v.drop_last()).contains_key(k) {
            let i = choose|i: int| 0 <= i < v.drop_last().len() && #[trigger] v.drop_last()[i].0@ == k;
            assert(v[i].0@ == k);
        }
        if exists|i: int| 0 <= i < v.len() && #[trigger] v[i].0@ == k {
            let i = choose|i: int| 0 <= i < v.len() && #[trigger] v[i].0@ == k;
            if i < v.len() - 1 {
                assert(v.drop_last()[i].0@ == k);
            }
        }
    }
}

/// Merges two metadata maps (given as their entries); values of the second
/// take precedence.
pub fn merge_metadata(base: Vec<(String, String)>, overlay: Vec<(String, String)>) -> (r: Vec<(String, String)>)
    requires
        distinct_keys(base@),
        distinct_keys(overlay@),
    ensures
        distinct_keys(r@),
        pairs_map(r@) == pairs_map(base@).union_prefer_right(pairs_map(overlay@)),
{
    let mut r = base;
    let ghost b = r@;
    let mut i: usize = 0;
    while i < overlay.len()
        invariant
            i <= overlay@.len(),
            distinct_keys(r@),
            pairs_map(r@) == pairs_map(b).union_prefer_right(pairs_map(overlay@.subrange(0, i as int))),
        decreases overlay@.len() - i,
    {
        let key = overlay[i].0.clone();
        let value = overlay[i].1.clone();
        let mut j: usize = 0;
        let mut found: Option<usize> = None;
        while j < r.len()
            invariant
                j <= r@.len(),
                found is None ==> forall|k: int| 0 <= k < j ==> #[trigger] r@[k].0@ != key@,
                found is Some ==> found->0 < r@.len() && r@[found->0 as int].0@ == key@,
            decreases r@.len() - j,
        {
            if found.is_none() && crate::text::str_eq(r[j].0.as_str(), key.as_str()) {
                found = Some(j);
            }
            j = j + 1;
        }
        let ghost before = r@;
        let ghost kv = key@;
        let ghost vv = value@;
        match found {
            Some(k) => {
                proof {
                    lemma_pairs_map_update(before, k as int, (key, value));
                }
                r.set(k, (key, value));
            },
            None => {
                r.push((key, value));
                proof {
                    assert(r@.drop_last() =~= before);
                    assert forall|a: int, c: int| 0 <= a < c < r@.len() implies r@[a].0@ != r@[c].0@ by {
                        if c == r@.len() - 1 {
                            assert(before[a].0@ != kv);
                        }
                    }
                }
            },
        }
        proof {
            let o = overlay@.subrange(0, i + 1);
            assert(o.drop_last() =~= overlay@.subrange(0, i as int));
            assert(o.last().0@ == kv && o.last().1@ == vv);
            assert(pairs_map(r@) =~= pairs_map(before).insert(kv, vv));
            assert(pairs_map(b).union_prefer_right(pairs_map(o)) =~= pairs_map(b).union_prefer_right(
                pairs_map(overlay@.subrange(0, i as int)),
            ).insert(kv, vv));
        }
        i = i + 1;
    }
    assert(overlay@.subrange(0, overlay@.len() as int) =~= overlay@);
    r
}

/// The value of a key among metadata entries.
pub fn metadata_get(entries: &[(String, String)], key: &str) -> (r: Option<String>)
    requires
        distinct_keys(entries@),
    ensures
        match r {
            Some(v) => pairs_map(entries@).contains_key(key@) && pairs_map(entries@)[key@] == v@,
            None => !pairs_map(entries@).contains_key(key@),
        },
{
    let mut i: usize = 0;
    while i < entries.len()
        invariant
            i <= entries@.len(),
            distinct_keys(entries@),
            forall|k: int| 0 <= k < i ==> #[trigger] entries@[k].0@ != key@,
        decreases entries@.len() - i,
    {
        if crate::text::str_eq(entries[i].0.as_str(), key) {
            proof {
                lemma_pairs_map_value(entries@, i as int);
            }
            return Some(entries[i].1.clone());
        }
        i = i + 1;
    }
    proof {
        lemma_pairs_map_contains(entries@, key@);
    }
    None
}

proof fn lemma_pairs_map_value(v: Seq<(String, String)>, i: int)
    requires
        distinct_keys(v),
        0 <= i < v.len(),
    ensures
        pairs_map(v).contains_key(v[i].0@),
        pairs_map(v)[v[i].0@] == v[i].1@,
    decreases v.len(),
{
    if i < v.len() - 1 {
        lemma_pairs_map_value(v.drop_last(), i);
        assert(v.last().0@ != v[i].0@);
    }
}

/// After merging, every key of the overlay has the overlay's value and
/// every other key of the base keeps its value.
pub proof fn law_merge_prefers_overlay(base: Seq<(String, String)>, overlay: Seq<(String, String)>, k: Seq<char>)
    ensures
        pairs_map(overlay).contains_key(k) ==> pairs_map(base).union_prefer_right(pairs_map(overlay))[k]
            == pairs_map(overlay)[k],
        !pairs_map(overlay).contains_key(k) && pairs_map(base).contains_key(k) ==> pairs_map(base).union_prefer_right(
            pairs_map(overlay),
        )[k] == pairs_map(base)[k],
        pairs_map(base).union_prefer_right(pairs_map(overlay)).contains_key(k) <==> (pairs_map(base).contains_key(k)
            || pairs_map(overlay).contains_key(k)),
{
}

} // verus!

verus! {

/// Generates a unique identifier: a random UUID, hyphenated.
pub fn generate_id() -> (s: String)
    ensures
        is_hyphenated_uuid(s@),
{
    new_uuid_text()
}

/// A short identifier: the first eight characters of a random UUID.
pub open spec fn is_short_id(s: Seq<char>) -> bool {
    exists|u: Seq<char>| is_hyphenated_uuid(u) && s == u.subrange(0, 8)
}

fn short_uuid_chars() -> (r: Vec<char>)
    ensures
        is_short_id(r@),
{
    let uuid = new_uuid_text();
    let uv = crate::text::chars_of(uuid.as_str());
    let mut out: Vec<char> = Vec::new();
    let mut k: usize = 0;
    while k < 8
        invariant
            k <= 8,
            uv@.len() == 36,
            is_hyphenated_uuid(uv@),
            out@ =~= uv@.subrange(0, k as int),
        decreases 8 - k,
    {
        out.push(uv[k]);
        k = k + 1;
    }
    out
}

/// Generates a short identifier for display: eight random lower-case
/// hexadecimal digits taken from a UUID.
pub fn generate_short_id() -> (s: String)
    ensures
        is_short_id(s@),
{
    let v = short_uuid_chars();
    crate::text::string_from_chars(v.as_slice())
}

/// The text of a timestamped identifier: the prefix and `_` when there is
/// one, the time in seconds, `_`, and the short identifier.
pub open spec fn timestamped_text(prefix: Option<Seq<char>>, t: int, short: Seq<char>) -> Seq<char> {
    (match prefix {
        Some(p) => p + "_"@,
        None => Seq::<char>::empty(),
    }) + signed_decimal(t) + "_"@ + short
}

/// A timestamped identifier: the prefix and `_` when there is one, the
/// time in seconds, `_`, and a short identifier.
pub open spec fn is_timestamped_id(s: Seq<char>, prefix: Option<Seq<char>>) -> bool {
    exists|t: i64, short: Seq<char>| is_short_id(short) && s == timestamped_text(prefix, t as int, short)
}

/// Formats a timestamped identifier from its prefix, time in seconds and
/// short identifier.
pub fn timestamped_id_text(prefix: Option<&str>, t: i64, short: &str) -> (s: String)
    ensures
        s@ == timestamped_text(
            match prefix {
                Some(p) => Some(p@),
                None => None,
            },
            t as int,
            short@,
        ),
{
    let ghost pre = match prefix {
        Some(p) => p@ + "_"@,
        None => Seq::<char>::empty(),
    };
    proof {
        reveal_strlit("_");
    }
    let mut out: Vec<char> = Vec::new();
    match prefix {
        Some(p) => {
            crate::text::push_str(&mut out, p);
            out.push('_');
        },
        None => {},
    }
    assert(out@ =~= pre);
    push_signed(&mut out, t);
    out.push('_');
    crate::text::push_str(&mut out, short);
    let s = crate::text::string_from_chars(out.as_slice());
    assert(s@ =~= pre + signed_decimal(t as int) + "_"@ + short@);
    s
}

/// Generates an identifier from an optional prefix, the current time in
/// seconds and a short random identifier, joined by `_` (see
/// `timestamped_id_text`).
pub fn generate_timestamped_id(prefix: Option<&str>) -> (s: String)
    ensures
        is_timestamped_id(
            s@,
            match prefix {
                Some(p) => Some(p@),
                None => None,
            },
        ),
{
    let t = utc_now_timestamp();
    let short_chars = short_uuid_chars();
    let short = crate::text::string_from_chars(short_chars.as_slice());
    timestamped_id_text(prefix, t, short.as_str())
}

/// The current UTC time in milliseconds since the Unix epoch. The value
/// comes from the clock; nothing is claimed of it.
pub fn current_timestamp_millis() -> (t: i64) {
    utc_now_millis()
}

/// The current UTC time in seconds since the Unix epoch. The value comes
/// from the clock; nothing is claimed of it.
pub fn current_timestamp_secs() -> (t: i64) {
    utc_now_timestamp()
}

} // verus!
