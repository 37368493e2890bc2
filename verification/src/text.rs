//! Verified text utilities: equality, prefix handling, whitespace and
//! separator splitting, and decimal parsing/formatting. The providers parse
//! the external tools' output with these, and the snapshot emitter renders
//! numbers with them.
use vstd::prelude::*;
use vstd::string::*;

use crate::error::DaemonError;

verus! {

/// The ASCII whitespace characters, the ones the splitters break on.
pub open spec fn is_ws(c: char) -> bool {
    c == ' ' || c == '\t' || c == '\n' || c == '\r' || c == '\u{0c}'
}

/// Exec mirror of `is_ws`.
pub fn is_ws_char(c: char) -> (r: bool)
    ensures
        r == is_ws(c),
{
    c == ' ' || c == '\t' || c == '\n' || c == '\r' || c == '\u{0c}'
}

/// True exactly when the two slices hold the same characters.
pub fn str_eq(a: &str, b: &str) -> (r: bool)
    ensures
        r == (a@ == b@),
{
    let a_len = a.unicode_len();
    let b_len = b.unicode_len();
    if a_len != b_len {
        return false;
    }
    let mut i: usize = 0;
    while i < a_len
        invariant
            i <= a_len,
            a_len == a@.len(),
            a_len == b@.len(),
            forall|j: int| 0 <= j < i ==> a@[j] == b@[j],
        decreases a_len - i,
    {
        if a.get_char(i) != b.get_char(i) {
            return false;
        }
        i += 1;
    }
    proof {
        assert(a@ =~= b@);
    }
    true
}

/// True exactly when `p` is a prefix of `s`.
pub fn str_starts_with(s: &str, p: &str) -> (r: bool)
    ensures
        r == p@.is_prefix_of(s@),
{
    let s_len = s.unicode_len();
    let p_len = p.unicode_len();
    if p_len > s_len {
        return false;
    }
    let mut i: usize = 0;
    while i < p_len
        invariant
            i <= p_len,
            p_len == p@.len(),
            s_len == s@.len(),
            p_len <= s_len,
            forall|j: int| 0 <= j < i ==> s@[j] == p@[j],
        decreases p_len - i,
    {
        if s.get_char(i) != p.get_char(i) {
            return false;
        }
        i += 1;
    }
    proof {
        assert(p@ =~= s@.subrange(0, p@.len() as int));
    }
    true
}

/// What stripping every leading copy of `p` from `s` leaves.
pub open spec fn spec_trim_start_matches(s: Seq<char>, p: Seq<char>) -> Seq<char>
    decreases s.len(),
{
    if p.len() > 0 && p.is_prefix_of(s) {
        spec_trim_start_matches(s.skip(p.len() as int), p)
    } else {
        s
    }
}

/// Strips every leading copy of `p` from `s`.
pub fn trim_start_matches(s: &str, p: &str) -> (r: String)
    ensures
        r@ == spec_trim_start_matches(s@, p@),
    decreases s@.len(),
{
    let p_len = p.unicode_len();
    if p_len > 0 && str_starts_with(s, p) {
        let rest = s.substring_char(p_len, s.unicode_len());
        trim_start_matches(rest, p)
    } else {
        String::from_str(s)
    }
}

/// What stripping every trailing copy of `p` from `s` leaves.
pub open spec fn spec_trim_end_matches(s: Seq<char>, p: Seq<char>) -> Seq<char>
    decreases s.len(),
{
    if p.len() > 0 && p.is_suffix_of(s) {
        spec_trim_end_matches(s.take(s.len() - p.len()), p)
    } else {
        s
    }
}

/// Strips every trailing copy of `p` from `s`.
pub fn trim_end_matches(s: &str, p: &str) -> (r: String)
    ensures
        r@ == spec_trim_end_matches(s@, p@),
    decreases s@.len(),
{
    let s_len = s.unicode_len();
    let p_len = p.unicode_len();
    if p_len > 0 && p_len <= s_len {
        let tail = s.substring_char(s_len - p_len, s_len);
        if str_eq(tail, p) {
            proof {
                assert(p@.is_suffix_of(s@));
            }
            let head = s.substring_char(0, s_len - p_len);
            return trim_end_matches(head, p);
        }
    }
    proof {
        if p@.len() > 0 && p@.is_suffix_of(s@) {
            assert(s@.subrange(s@.len() - p@.len(), s@.len() as int) =~= p@);
        }
    }
    String::from_str(s)
}

/// What trimming leading whitespace from `s` leaves.
pub open spec fn spec_trim_start(s: Seq<char>) -> Seq<char>
    decreases s.len(),
{
    if s.len() > 0 && is_ws(s[0]) {
        spec_trim_start(s.skip(1))
    } else {
        s
    }
}

/// What trimming trailing whitespace from `s` leaves.
pub open spec fn spec_trim_end(s: Seq<char>) -> Seq<char>
    decreases s.len(),
{
    if s.len() > 0 && is_ws(s.last()) {
        spec_trim_end(s.take(s.len() - 1))
    } else {
        s
    }
}

/// What trimming whitespace from both ends of `s` leaves.
pub open spec fn spec_trim(s: Seq<char>) -> Seq<char> {
    spec_trim_end(spec_trim_start(s))
}

fn trim_start(s: &str) -> (r: String)
    ensures
        r@ == spec_trim_start(s@),
    decreases s@.len(),
{
    let s_len = s.unicode_len();
    if s_len > 0 && is_ws_char(s.get_char(0)) {
        trim_start(s.substring_char(1, s_len))
    } else {
        String::from_str(s)
    }
}

fn trim_end(s: &str) -> (r: String)
    ensures
        r@ == spec_trim_end(s@),
    decreases s@.len(),
{
    let s_len = s.unicode_len();
    if s_len > 0 && is_ws_char(s.get_char(s_len - 1)) {
        trim_end(s.substring_char(0, s_len - 1))
    } else {
        String::from_str(s)
    }
}

/// Trims whitespace from both ends of `s`.
pub fn trim(s: &str) -> (r: String)
    ensures
        r@ == spec_trim(s@),
{
    let start = trim_start(s);
    trim_end(start.as_str())
}

/// The pieces `s` falls into when cut at every occurrence of `sep`; empty
/// pieces are kept, as `str::split` keeps them.
pub open spec fn spec_split(s: Seq<char>, sep: char) -> Seq<Seq<char>>
    decreases s.len(),
{
    if s.len() == 0 {
        seq![Seq::<char>::empty()]
    } else if s[0] == sep {
        seq![Seq::<char>::empty()] + spec_split(s.skip(1), sep)
    } else {
        let rest = spec_split(s.skip(1), sep);
        seq![seq![s[0]] + rest[0]] + rest.skip(1)
    }
}

pub proof fn lemma_split_len(s: Seq<char>, sep: char)
    ensures
        spec_split(s, sep).len() >= 1,
    decreases s.len(),
{
    if s.len() > 0 {
        lemma_split_len(s.skip(1), sep);
    }
}

proof fn lemma_split_no_sep(s: Seq<char>, sep: char)
    requires
        forall|j: int| 0 <= j < s.len() ==> s[j] != sep,
    ensures
        spec_split(s, sep) =~~= seq![s],
    decreases s.len(),
{
    if s.len() == 0 {
        assert(spec_split(s, sep) =~~= seq![s]);
    } else {
        lemma_split_no_sep(s.skip(1), sep);
        let rest = spec_split(s.skip(1), sep);
        assert(rest[0] == s.skip(1));
        assert(seq![s[0]] + s.skip(1) =~= s);
        assert(rest.skip(1) =~= Seq::<Seq<char>>::empty());
        assert(spec_split(s, sep) =~~= seq![s]);
    }
}

proof fn lemma_split_at_first(s: Seq<char>, sep: char, i: int)
    requires
        0 <= i < s.len(),
        s[i] == sep,
        forall|j: int| 0 <= j < i ==> s[j] != sep,
    ensures
        spec_split(s, sep) =~~= seq![s.take(i)] + spec_split(s.skip(i + 1), sep),
    decreases i,
{
    if i == 0 {
        assert(s.take(0) =~= Seq::<char>::empty());
    } else {
        assert(s.skip(1)[i - 1] == s[i]);
        assert(forall|j: int| 0 <= j < i - 1 ==> s.skip(1)[j] == s[j + 1]);
        lemma_split_at_first(s.skip(1), sep, i - 1);
        let rest = spec_split(s.skip(1), sep);
        lemma_split_len(s.skip(1).skip(i), sep);
        assert(s.skip(1).skip(i) =~= s.skip(i + 1));
        assert(rest[0] == s.skip(1).take(i - 1));
        assert(seq![s[0]] + s.skip(1).take(i - 1) =~= s.take(i));
        assert(rest.skip(1) =~~= seq![s.skip(1).take(i - 1)].add(
            spec_split(s.skip(i + 1), sep),
        ).skip(1));
        assert(spec_split(s, sep) =~~= seq![s.take(i)] + spec_split(s.skip(i + 1), sep));
    }
}

/// Cuts `s` at every occurrence of `sep`, keeping empty pieces.
pub fn split_char(s: &str, sep: char) -> (r: Vec<String>)
    ensures
        r.deep_view() =~~= spec_split(s@, sep),
    decreases s@.len(),
{
    let s_len = s.unicode_len();
    let mut i: usize = 0;
    while i < s_len
        invariant
            i <= s_len,
            s_len == s@.len(),
            forall|j: int| 0 <= j < i ==> s@[j] != sep,
        decreases s_len - i,
    {
        if s.get_char(i) == sep {
            let head = s.substring_char(0, i);
            let tail = s.substring_char(i + 1, s_len);
            let mut r = split_char(tail, sep);
            r.insert(0, String::from_str(head));
            proof {
                lemma_split_at_first(s@, sep, i as int);
                assert(s@.subrange(0, i as int) == s@.take(i as int));
                assert(s@.subrange(i + 1, s_len as int) == s@.skip(i + 1));
                assert(r.deep_view() =~~= seq![s@.take(i as int)] + spec_split(
                    s@.skip(i + 1),
                    sep,
                ));
            }
            return r;
        }
        i += 1;
    }
    let mut r: Vec<String> = Vec::new();
    r.push(String::from_str(s));
    proof {
        lemma_split_no_sep(s@, sep);
        assert(r.deep_view() =~~= seq![s@]);
    }
    r
}

/// Length of the leading run of non-whitespace characters of `s`.
pub open spec fn spec_token_len(s: Seq<char>) -> int
    decreases s.len(),
{
    if s.len() == 0 || is_ws(s[0]) {
        0
    } else {
        1 + spec_token_len(s.skip(1))
    }
}

pub proof fn lemma_token_len_bounds(s: Seq<char>)
    ensures
        0 <= spec_token_len(s) <= s.len(),
        s.len() > 0 && !is_ws(s[0]) ==> spec_token_len(s) >= 1,
        forall|j: int| 0 <= j < spec_token_len(s) ==> !is_ws(s[j]),
        spec_token_len(s) < s.len() ==> is_ws(s[spec_token_len(s)]),
    decreases s.len(),
{
    if s.len() > 0 && !is_ws(s[0]) {
        lemma_token_len_bounds(s.skip(1));
        assert forall|j: int| 0 <= j < spec_token_len(s) implies !is_ws(s[j]) by {
            if j > 0 {
                assert(s[j] == s.skip(1)[j - 1]);
            }
        }
    }
}

/// The whitespace-separated tokens of `s`, in order, without empty tokens,
/// as `str::split_ascii_whitespace` yields them.
pub open spec fn spec_split_ws(s: Seq<char>) -> Seq<Seq<char>>
    decreases s.len(), s.len() + 1,
    via spec_split_ws_decreases
{
    if s.len() == 0 {
        Seq::empty()
    } else if is_ws(s[0]) {
        spec_split_ws(s.skip(1))
    } else {
        seq![s.take(spec_token_len(s))] + spec_split_ws(s.skip(spec_token_len(s)))
    }
}

#[via_fn]
proof fn spec_split_ws_decreases(s: Seq<char>) {
    lemma_token_len_bounds(s);
}

proof fn lemma_token_scan(s: Seq<char>, i: int)
    requires
        0 <= i <= s.len(),
        forall|j: int| 0 <= j < i ==> !is_ws(s[j]),
        i == s.len() || is_ws(s[i]),
    ensures
        spec_token_len(s) == i,
    decreases i,
{
    if i == 0 {
    } else {
        assert(forall|j: int| 0 <= j < i - 1 ==> s.skip(1)[j] == s[j + 1]);
        lemma_token_scan(s.skip(1), i - 1);
    }
}

/// Splits `s` into its whitespace-separated tokens.
pub fn split_ws(s: &str) -> (r: Vec<String>)
    ensures
        r.deep_view() =~~= spec_split_ws(s@),
    decreases s@.len(),
{
    let s_len = s.unicode_len();
    if s_len == 0 {
        let r: Vec<String> = Vec::new();
        proof {
            assert(r.deep_view() =~~= spec_split_ws(s@));
        }
        return r;
    }
    if is_ws_char(s.get_char(0)) {
        let r = split_ws(s.substring_char(1, s_len));
        proof {
            assert(s@.subrange(1, s_len as int) == s@.skip(1));
        }
        return r;
    }
    let mut i: usize = 1;
    while i < s_len && !is_ws_char(s.get_char(i))
        invariant
            1 <= i <= s_len,
            s_len == s@.len(),
            forall|j: int| 0 <= j < i ==> !is_ws(s@[j]),
        decreases s_len - i,
    {
        i += 1;
    }
    proof {
        lemma_token_scan(s@, i as int);
    }
    let tok = s.substring_char(0, i);
    let rest = s.substring_char(i, s_len);
    let mut r = split_ws(rest);
    r.insert(0, String::from_str(tok));
    proof {
        assert(s@.subrange(0, i as int) == s@.take(i as int));
        assert(s@.subrange(i as int, s_len as int) == s@.skip(i as int));
        assert(r.deep_view() =~~= spec_split_ws(s@));
    }
    r
}

/// A decimal digit.
pub open spec fn is_digit(c: char) -> bool {
    48 <= c as u32 <= 57
}

/// Numeric value of a decimal digit.
pub open spec fn digit_val(c: char) -> int {
    c as u32 - 48
}

/// Every character of `s` is a decimal digit.
pub open spec fn all_digits(s: Seq<char>) -> bool {
    forall|i: int| 0 <= i < s.len() ==> is_digit(#[trigger] s[i])
}

/// The number the digit string `s` denotes.
pub open spec fn dec_val(s: Seq<char>) -> int
    decreases s.len(),
{
    if s.len() == 0 {
        0
    } else {
        dec_val(s.take(s.len() - 1)) * 10 + digit_val(s.last())
    }
}

/// The digit string, minus one optional leading `+`, that an unsigned decimal
/// parse reads.
pub open spec fn dec_body(s: Seq<char>) -> Seq<char> {
    if s.len() > 0 && s[0] == '+' {
        s.skip(1)
    } else {
        s
    }
}

/// `s` is what `str::parse` accepts for a `u64`: an optional `+`, then at
/// least one digit, denoting a value that fits.
pub open spec fn valid_u64_str(s: Seq<char>) -> bool {
    dec_body(s).len() > 0 && all_digits(dec_body(s)) && dec_val(dec_body(s)) <= u64::MAX
}

pub proof fn lemma_dec_val_bounds(s: Seq<char>)
    requires
        all_digits(s),
    ensures
        0 <= dec_val(s),
        forall|k: int| 0 <= k <= s.len() ==> 0 <= #[trigger] dec_val(s.take(k)) <= dec_val(s),
    decreases s.len(),
{
    if s.len() == 0 {
        assert forall|k: int| 0 <= k <= s.len() implies 0 <= #[trigger] dec_val(s.take(k))
            <= dec_val(s) by {
            assert(s.take(k) =~= s);
        }
    } else {
        let head = s.take(s.len() - 1);
        assert(all_digits(head));
        lemma_dec_val_bounds(head);
        assert forall|k: int| 0 <= k <= s.len() implies 0 <= #[trigger] dec_val(s.take(k))
            <= dec_val(s) by {
            if k == s.len() {
                assert(s.take(k) =~= s);
            } else {
                assert(s.take(k) =~= head.take(k));
                assert(dec_val(head.take(k)) <= dec_val(head));
            }
        }
    }
}

/// Parses an unsigned decimal as `str::parse::<u64>` does, accepting one
/// optional leading `+`.
pub fn parse_u64(s: &str) -> (r: Result<u64, DaemonError>)
    ensures
        r is Ok <==> valid_u64_str(s@),
        r matches Ok(v) ==> v == dec_val(dec_body(s@)),
        r matches Err(e) ==> e matches DaemonError::IntegerFromString(t) && t@ == s@,
{
    let s_len = s.unicode_len();
    let start: usize = if s_len > 0 && s.get_char(0) == '+' {
        1
    } else {
        0
    };
    let ghost body = dec_body(s@);
    proof {
        assert(body =~= s@.skip(start as int));
    }
    if s_len == start {
        return Err(DaemonError::IntegerFromString(String::from_str(s)));
    }
    let mut acc: u64 = 0;
    let mut i: usize = start;
    while i < s_len
        invariant
            start <= i <= s_len,
            s_len == s@.len(),
            body == s@.skip(start as int),
            body == dec_body(s@),
            body.len() > 0,
            all_digits(body.take(i - start)),
            acc == dec_val(body.take(i - start)),
        decreases s_len - i,
    {
        let c = s.get_char(i);
        let cv = c as u32;
        if cv < 48 || cv > 57 {
            proof {
                assert(body[i - start] == s@[i as int]);
                assert(!is_digit(body[i - start]));
            }
            return Err(DaemonError::IntegerFromString(String::from_str(s)));
        }
        let d: u64 = (cv - 48) as u64;
        if acc > (u64::MAX - d) / 10 {
            proof {
                let k = i - start + 1;
                assert(body.take(k).last() == body[k - 1]);
                assert(body[k - 1] == s@[i as int]);
                assert(body.take(k).take(k - 1) =~= body.take(k - 1));
                assert(dec_val(body.take(k)) == acc * 10 + d);
                assert(acc * 10 + d > u64::MAX) by {
                    assert(acc >= (u64::MAX - d) / 10 + 1);
                    assert(((u64::MAX - d) / 10 + 1) * 10 >= u64::MAX - d + 1) by (nonlinear_arith);
                    assert(acc * 10 >= ((u64::MAX - d) / 10 + 1) * 10) by (nonlinear_arith)
                        requires
                            acc >= (u64::MAX - d) / 10 + 1,
                    ;
                }
                if valid_u64_str(s@) {
                    assert(all_digits(body));
                    lemma_dec_val_bounds(body);
                    assert(dec_val(body.take(k)) <= dec_val(body));
                    assert(false);
                }
            }
            return Err(DaemonError::IntegerFromString(String::from_str(s)));
        }
        proof {
            let k = i - start + 1;
            assert(body.take(k).last() == body[k - 1]);
            assert(body[k - 1] == s@[i as int]);
            assert(body.take(k).take(k - 1) =~= body.take(k - 1));
            assert(all_digits(body.take(k)));
        }
        acc = acc * 10 + d;
        i += 1;
    }
    proof {
        assert(body.take(i - start) =~= body);
    }
    Ok(acc)
}

/// Parses an unsigned decimal as `str::parse::<u32>` does.
pub fn parse_u32(s: &str) -> (r: Result<u32, DaemonError>)
    ensures
        r is Ok <==> (valid_u64_str(s@) && dec_val(dec_body(s@)) <= u32::MAX),
        r matches Ok(v) ==> v == dec_val(dec_body(s@)),
        r matches Err(e) ==> e matches DaemonError::IntegerFromString(t) && t@ == s@,
{
    match parse_u64(s) {
        Ok(v) => {
            if v <= u32::MAX as u64 {
                Ok(v as u32)
            } else {
                Err(DaemonError::IntegerFromString(String::from_str(s)))
            }
        },
        Err(e) => Err(e),
    }
}

/// The decimal rendering of a nonnegative number, without sign or padding.
pub open spec fn dec_str(n: int) -> Seq<char>
    recommends
        n >= 0,
    decreases n,
{
    if n < 10 {
        seq![((48 + n) as u8) as char]
    } else {
        dec_str(n / 10).push(((48 + n % 10) as u8) as char)
    }
}

fn digit_str(d: u64) -> (r: &'static str)
    requires
        d < 10,
    ensures
        r@ =~= seq![((48 + d) as u8) as char],
{
    let digits = "0123456789";
    proof {
        reveal_strlit("0123456789");
    }
    digits.substring_char(d as usize, d as usize + 1)
}

/// Renders `n` in decimal, as `u64`'s `to_string` does.
pub fn u64_to_string(n: u64) -> (r: String)
    ensures
        r@ == dec_str(n as int),
    decreases n,
{
    if n < 10 {
        String::from_str(digit_str(n))
    } else {
        let mut r = u64_to_string(n / 10);
        r.append(digit_str(n % 10));
        proof {
            assert(r@ =~= dec_str(n as int));
        }
        r
    }
}

/// Renders `n` in decimal, as `u32`'s `to_string` does.
pub fn u32_to_string(n: u32) -> (r: String)
    ensures
        r@ == dec_str(n as int),
{
    u64_to_string(n as u64)
}

/// Renders a boolean as `bool`'s `to_string` does.
pub fn bool_to_string(b: bool) -> (r: String)
    ensures
        b ==> r@ == "true"@,
        !b ==> r@ == "false"@,
{
    if b {
        String::from_str("true")
    } else {
        String::from_str("false")
    }
}

/// Parses a boolean as `str::parse::<bool>` does: exactly `true` or `false`.
pub fn parse_bool_strict(s: &str) -> (r: Result<bool, DaemonError>)
    ensures
        r is Ok <==> (s@ == "true"@ || s@ == "false"@),
        r matches Ok(v) ==> v == (s@ == "true"@),
        r matches Err(e) ==> e matches DaemonError::BoolFromString(t) && t@ == s@,
{
    if str_eq(s, "true") {
        Ok(true)
    } else if str_eq(s, "false") {
        proof {
            reveal_strlit("true");
            reveal_strlit("false");
        }
        Ok(false)
    } else {
        Err(DaemonError::BoolFromString(String::from_str(s)))
    }
}

/// ASCII-lowercased form of one character.
pub open spec fn lower_char(c: char) -> char {
    if 65 <= c as u32 <= 90 {
        ((c as u8) + 32) as char
    } else {
        c
    }
}

/// ASCII-lowercased form of a character sequence.
pub open spec fn spec_lower(s: Seq<char>) -> Seq<char> {
    s.map_values(|c: char| lower_char(c))
}

/// True exactly when lowercasing `s` gives `lit`.
pub fn eq_lowered(s: &str, lit: &str) -> (r: bool)
    ensures
        r == (spec_lower(s@) == lit@),
{
    let s_len = s.unicode_len();
    let lit_len = lit.unicode_len();
    if s_len != lit_len {
        proof {
            assert(spec_lower(s@).len() == s@.len());
        }
        return false;
    }
    let mut i: usize = 0;
    while i < s_len
        invariant
            i <= s_len,
            s_len == s@.len(),
            s_len == lit@.len(),
            forall|j: int| 0 <= j < i ==> #[trigger] spec_lower(s@)[j] == lit@[j],
        decreases s_len - i,
    {
        let c = s.get_char(i);
        let cv = c as u32;
        let low: char = if 65 <= cv && cv <= 90 {
            ((c as u8) + 32) as char
        } else {
            c
        };
        proof {
            assert(spec_lower(s@)[i as int] == lower_char(s@[i as int]));
        }
        if low != lit.get_char(i) {
            return false;
        }
        i += 1;
    }
    proof {
        assert(spec_lower(s@) =~= lit@);
    }
    true
}

/// Relies on `String::push`: it appends exactly the one character.
#[verifier::external_body]
pub fn push_char(s: &mut String, c: char)
    ensures
        final(s)@ == old(s)@.push(c),
{
    s.push(c);
}

} // verus!
