//! Reading settings from environment values: each helper takes the value the
//! variable holds (none when it is unset or not valid text) and falls back
//! to its default when the value is missing or does not parse. Also the
//! parsing of `vm_stat` output, for the free-memory estimate.

use vstd::prelude::*;
use crate::text::{
    all_digits, chars_of, decimal, is_white_space, is_white_space_exec, owned, parse_bool,
    parse_bool_str, parse_unsigned, parse_unsigned_chars, parse_unsigned_str, slice_vec,
    split_trim_str, split_trimmed, starts_with, starts_with_chars, str_contains, contains_seq,
    string_of, contains_chars, split_char, split_chars, is_digit,
};
use crate::lm::models::string_views;

verus! {

/// The value, or `default` when unset.
pub fn env_str(raw: Option<String>, default: &str) -> (r: String)
    ensures
        r@ == match raw {
            Some(v) => v@,
            None => default@,
        },
{
    match raw {
        Some(v) => v,
        None => owned(default),
    }
}

/// The value as `true`/`false`, or `default`.
pub fn env_bool(raw: Option<String>, default: bool) -> (r: bool)
    ensures
        r == match raw {
            Some(v) => match parse_bool(v@) {
                Some(b) => b,
                None => default,
            },
            None => default,
        },
{
    match raw {
        Some(v) => match parse_bool_str(v.as_str()) {
            Some(b) => b,
            None => default,
        },
        None => default,
    }
}

/// The value as a number no larger than `max`, or `default`.
pub open spec fn env_number(raw: Option<Seq<char>>, max: nat, default: nat) -> nat {
    match raw {
        Some(v) => match parse_unsigned(v, max) {
            Some(n) => n,
            None => default,
        },
        None => default,
    }
}

/// The value as a `usize`, or `default`.
pub fn env_usize(raw: Option<String>, default: usize) -> (r: usize)
    ensures
        r == env_number(
            match raw {
                Some(v) => Some(v@),
                None => None,
            },
            usize::MAX as nat,
            default as nat,
        ),
{
    match raw {
        Some(v) => match parse_unsigned_str(v.as_str(), usize::MAX as u64) {
            Some(n) => n as usize,
            None => default,
        },
        None => default,
    }
}

/// The value as a `u32`, or `default`.
pub fn env_u32(raw: Option<String>, default: u32) -> (r: u32)
    ensures
        r == env_number(
            match raw {
                Some(v) => Some(v@),
                None => None,
            },
            u32::MAX as nat,
            default as nat,
        ),
{
    match raw {
        Some(v) => match parse_unsigned_str(v.as_str(), 0xffff_ffff) {
            Some(n) => n as u32,
            None => default,
        },
        None => default,
    }
}

/// The value as a `u16`, or `default`.
pub fn env_u16(raw: Option<String>, default: u16) -> (r: u16)
    ensures
        r == env_number(
            match raw {
                Some(v) => Some(v@),
                None => None,
            },
            u16::MAX as nat,
            default as nat,
        ),
{
    match raw {
        Some(v) => match parse_unsigned_str(v.as_str(), 0xffff) {
            Some(n) => n as u16,
            None => default,
        },
        None => default,
    }
}

/// The value as a `u32`, none when unset or not a number.
pub fn env_opt_u32(raw: Option<String>) -> (r: Option<u32>)
    ensures
        match raw {
            Some(v) => match parse_unsigned(v@, u32::MAX as nat) {
                Some(n) => r == Some(n as u32),
                None => r is None,
            },
            None => r is None,
        },
{
    match raw {
        Some(v) => match parse_unsigned_str(v.as_str(), 0xffff_ffff) {
            Some(n) => Some(n as u32),
            None => None,
        },
        None => None,
    }
}

/// The value, none when unset or empty.
pub fn env_opt_str(raw: Option<String>) -> (r: Option<String>)
    ensures
        match raw {
            Some(v) => if v@.len() > 0 {
                r matches Some(s) && s@ == v@
            } else {
                r is None
            },
            None => r is None,
        },
{
    match raw {
        Some(v) => {
            if v.as_str().is_empty() {
                None
            } else {
                Some(v)
            }
        },
        None => None,
    }
}

/// The comma-separated items of the value, each trimmed; none when unset.
pub fn env_opt_list(raw: Option<String>) -> (r: Option<Vec<String>>)
    ensures
        match raw {
            Some(v) => r matches Some(l) && string_views(l@) == split_trimmed(v@, ','),
            None => r is None,
        },
{
    match raw {
        Some(v) => {
            let l = split_trim_str(v.as_str(), ',');
            assert(string_views(l@) =~= split_trimmed(v@, ','));
            Some(l)
        },
        None => None,
    }
}

/// The comma-separated items of the value, each trimmed; the defaults when
/// unset.
pub fn env_list(raw: Option<String>, defaults: &Vec<String>) -> (r: Vec<String>)
    ensures
        string_views(r@) == match raw {
            Some(v) => split_trimmed(v@, ','),
            None => string_views(defaults@),
        },
{
    match raw {
        Some(v) => {
            let l = split_trim_str(v.as_str(), ',');
            assert(string_views(l@) =~= split_trimmed(v@, ','));
            l
        },
        None => {
            let mut out: Vec<String> = Vec::new();
            let mut i: usize = 0;
            while i < defaults.len()
                invariant
                    0 <= i <= defaults@.len(),
                    string_views(out@) == string_views(defaults@).take(i as int),
                decreases defaults@.len() - i,
            {
                let ghost prev = out@;
                let s = defaults[i].clone();
                out.push(s);
                assert(string_views(out@) =~= string_views(prev).push(s@));
                assert(string_views(defaults@).take(i + 1) =~= string_views(defaults@).take(
                    i as int,
                ).push(defaults@[i as int]@));
                i = i + 1;
            }
            assert(string_views(defaults@).take(i as int) =~= string_views(defaults@));
            out
        },
    }
}

// ── vm_stat ─────────────────────────────────────────────────────────────────

/// The last word of `s` (a maximal run of non-whitespace characters, as std
/// `split_whitespace` yields them), none when `s` is all whitespace.
pub open spec fn last_word(s: Seq<char>) -> Option<Seq<char>> {
    let end = last_non_white(s, s.len() as int);
    if end == 0 {
        None
    } else {
        let start = word_start(s, end);
        Some(s.subrange(start, end))
    }
}

/// The end of the text once trailing whitespace before `k` is dropped.
pub open spec fn last_non_white(s: Seq<char>, k: int) -> int
    decreases k,
{
    if k <= 0 {
        0
    } else if is_white_space(s[k - 1]) {
        last_non_white(s, k - 1)
    } else {
        k
    }
}

/// The start of the word that ends at `k`.
pub open spec fn word_start(s: Seq<char>, k: int) -> int
    decreases k,
{
    if k <= 0 {
        0
    } else if is_white_space(s[k - 1]) {
        k
    } else {
        word_start(s, k - 1)
    }
}

/// `s` without the trailing `.` characters (std `trim_end_matches('.')`).
pub open spec fn trim_dots(s: Seq<char>) -> Seq<char>
    decreases s.len(),
{
    if s.len() > 0 && s.last() == '.' {
        trim_dots(s.drop_last())
    } else {
        s
    }
}

/// The number at the end of a `vm_stat` line: its last word, trailing dots
/// dropped, as a `u64`.
pub open spec fn vm_stat_value(line: Seq<char>) -> Option<u64> {
    match last_word(line) {
        Some(w) => match parse_unsigned(trim_dots(w), u64::MAX as nat) {
            Some(n) => Some(n as u64),
            None => None,
        },
        None => None,
    }
}

/// The number at the end of a `vm_stat` line (see `vm_stat_value`).
pub fn parse_vm_stat_line(line: &str) -> (r: Option<u64>)
    ensures
        r == vm_stat_value(line@),
{
    let s = chars_of(line);
    let mut end = s.len();
    while end > 0 && is_white_space_exec(s[end - 1])
        invariant
            0 <= end <= s@.len(),
            last_non_white(s@, s@.len() as int) == last_non_white(s@, end as int),
        decreases end,
    {
        end = end - 1;
    }
    if end == 0 {
        return None;
    }
    assert(last_non_white(s@, end as int) == end);
    let mut start = end;
    while start > 0 && !is_white_space_exec(s[start - 1])
        invariant
            0 <= start <= end <= s@.len(),
            word_start(s@, end as int) == word_start(s@, start as int),
        decreases start,
    {
        start = start - 1;
    }
    let mut stop = end;
    while stop > start && s[stop - 1] == '.'
        invariant
            start <= stop <= end <= s@.len(),
            trim_dots(s@.subrange(start as int, end as int)) == trim_dots(
                s@.subrange(start as int, stop as int),
            ),
        decreases stop,
    {
        assert(s@.subrange(start as int, stop as int).drop_last() =~= s@.subrange(
            start as int,
            stop - 1,
        ));
        stop = stop - 1;
    }
    let w = slice_vec(s.as_slice(), start, stop);
    proof {
        if start < stop {
            assert(s@.subrange(start as int, stop as int).last() != '.');
        }
        assert(trim_dots(s@.subrange(start as int, stop as int)) == s@.subrange(
            start as int,
            stop as int,
        ));
    }
    parse_unsigned_chars(w.as_slice(), u64::MAX)
}


/// The first index at or after `i` that holds no whitespace.
pub open spec fn skip_white(s: Seq<char>, i: int) -> int
    decreases s.len() - i,
{
    if 0 <= i < s.len() && is_white_space(s[i]) {
        skip_white(s, i + 1)
    } else {
        i
    }
}

/// The end of the word that starts at `i`.
pub open spec fn word_end(s: Seq<char>, i: int) -> int
    decreases s.len() - i,
{
    if 0 <= i < s.len() && !is_white_space(s[i]) {
        word_end(s, i + 1)
    } else {
        i
    }
}

/// The first word at or after `i` (as std `split_whitespace` yields words)
/// that is made of decimal digits only.
pub open spec fn first_digit_word(s: Seq<char>, i: int) -> Option<Seq<char>>
    decreases s.len() - i,
{
    let a = skip_white(s, i);
    let b = word_end(s, a);
    if i < 0 || !(a < s.len()) || b <= i || b > s.len() {
        None
    } else if all_digits(s.subrange(a, b)) {
        Some(s.subrange(a, b))
    } else {
        first_digit_word(s, b)
    }
}

/// What a `vm_stat` report says: the page size and the free, inactive,
/// purgeable and speculative page counts.
pub struct VmStat {
    pub page_size: u64,
    pub free: u64,
    pub inactive: u64,
    pub purgeable: u64,
    pub speculative: u64,
}

/// One line of a `vm_stat` report read into the tally: the header line that
/// states the page size (its first all-digit word, when that fits a `u64`), or
/// a `Pages ...:` line whose value replaces the count (zero when it does not
/// parse).
pub open spec fn vm_stat_step(st: VmStat, line: Seq<char>) -> VmStat {
    let value = match vm_stat_value(line) {
        Some(n) => n,
        None => 0u64,
    };
    if contains_seq(line, "page size of"@) {
        match first_digit_word(line, 0) {
            Some(w) => match parse_unsigned(w, u64::MAX as nat) {
                Some(n) => VmStat { page_size: n as u64, ..st },
                None => st,
            },
            None => st,
        }
    } else if starts_with(line, "Pages free:"@) {
        VmStat { free: value, ..st }
    } else if starts_with(line, "Pages inactive:"@) {
        VmStat { inactive: value, ..st }
    } else if starts_with(line, "Pages purgeable:"@) {
        VmStat { purgeable: value, ..st }
    } else if starts_with(line, "Pages speculative:"@) {
        VmStat { speculative: value, ..st }
    } else {
        st
    }
}

/// The tally of a report's lines, from a page size of 4096 and no pages.
pub open spec fn vm_stat_tally(lines: Seq<Seq<char>>) -> VmStat
    decreases lines.len(),
{
    if lines.len() == 0 {
        VmStat { page_size: 4096, free: 0, inactive: 0, purgeable: 0, speculative: 0 }
    } else {
        vm_stat_step(vm_stat_tally(lines.drop_last()), lines.last())
    }
}

/// The bytes a tally counts as available: the free, inactive, purgeable and
/// speculative pages times the page size.
pub open spec fn tally_bytes(st: VmStat) -> int {
    (st.free + st.inactive + st.purgeable + st.speculative) * st.page_size
}

/// The bytes a `vm_stat` report counts as available, when that fits a `u64`.
pub open spec fn available_bytes_of(text: Seq<char>) -> Option<u64> {
    let b = tally_bytes(vm_stat_tally(split_char(text, '\n')));
    if b <= u64::MAX {
        Some(b as u64)
    } else {
        None
    }
}

/// The first all-digit word of `s` from `i` on (see `first_digit_word`).
fn first_digit_word_exec(s: &[char], i: usize) -> (r: Option<Vec<char>>)
    requires
        i <= s@.len(),
    ensures
        match r {
            Some(w) => first_digit_word(s@, i as int) == Some(w@),
            None => first_digit_word(s@, i as int) is None,
        },
    decreases s@.len() - i,
{
    let mut a = i;
    while a < s.len() && is_white_space_exec(s[a])
        invariant
            i <= a <= s@.len(),
            skip_white(s@, i as int) == skip_white(s@, a as int),
        decreases s@.len() - a,
    {
        a = a + 1;
    }
    if a >= s.len() {
        return None;
    }
    let mut b = a;
    while b < s.len() && !is_white_space_exec(s[b])
        invariant
            a <= b <= s@.len(),
            word_end(s@, a as int) == word_end(s@, b as int),
        decreases s@.len() - b,
    {
        b = b + 1;
    }
    assert(b > a) by {
        assert(!is_white_space(s@[a as int]));
    }
    let mut k = a;
    let mut digits = true;
    while k < b
        invariant
            a <= k <= b <= s@.len(),
            digits == (forall|j: int| a <= j < k ==> #[trigger] is_digit(s@[j])),
        decreases b - k,
    {
        let d = '0' <= s[k] && s[k] <= '9';
        let ghost before = digits;
        if !d {
            digits = false;
        }
        proof {
            if digits {
                assert forall|j: int| a <= j < k + 1 implies #[trigger] is_digit(s@[j]) by {
                    if j < k {
                        assert(before);
                    }
                }
            } else if !d {
                assert(!is_digit(s@[k as int]));
            } else {
                let j = choose|j: int| a <= j < k && !is_digit(#[trigger] s@[j]);
                assert(!is_digit(s@[j]));
            }
        }
        k = k + 1;
    }
    let w = slice_vec(s, a, b);
    if digits {
        assert(all_digits(s@.subrange(a as int, b as int))) by {
            assert forall|j: int| 0 <= j < b - a implies is_digit(s@.subrange(a as int, b as int)[j]) by {
                assert(is_digit(s@[a + j]));
            }
        }
        Some(w)
    } else {
        assert(!all_digits(s@.subrange(a as int, b as int))) by {
            let j = choose|j: int| a <= j < b && !is_digit(#[trigger] s@[j]);
            assert(s@.subrange(a as int, b as int)[j - a] == s@[j]);
        }
        first_digit_word_exec(s, b)
    }
}

/// The bytes a `vm_stat` report counts as available (see `available_bytes_of`):
/// none when the count does not fit a `u64`.
pub fn available_bytes(text: &str) -> (r: Option<u64>)
    ensures
        r == available_bytes_of(text@),
{
    proof {
        reveal_strlit("page size of");
        reveal_strlit("Pages free:");
        reveal_strlit("Pages inactive:");
        reveal_strlit("Pages purgeable:");
        reveal_strlit("Pages speculative:");
    }
    let t = chars_of(text);
    let lines = split_chars(t.as_slice(), '\n');
    let ghost ls = split_char(t@, '\n');
    let header = chars_of("page size of");
    let p_free = chars_of("Pages free:");
    let p_inactive = chars_of("Pages inactive:");
    let p_purgeable = chars_of("Pages purgeable:");
    let p_speculative = chars_of("Pages speculative:");
    let mut st = VmStat { page_size: 4096, free: 0, inactive: 0, purgeable: 0, speculative: 0 };
    let mut i: usize = 0;
    while i < lines.len()
        invariant
            0 <= i <= lines@.len(),
            lines@.len() == ls.len(),
            forall|k: int| 0 <= k < lines@.len() ==> #[trigger] lines@[k]@ == ls[k],
            header@ == "page size of"@,
            p_free@ == "Pages free:"@,
            p_inactive@ == "Pages inactive:"@,
            p_purgeable@ == "Pages purgeable:"@,
            p_speculative@ == "Pages speculative:"@,
            st == vm_stat_tally(ls.take(i as int)),
        decreases lines@.len() - i,
    {
        let line = &lines[i];
        assert(ls.take(i + 1).drop_last() =~= ls.take(i as int));
        assert(ls.take(i + 1).last() == ls[i as int]);
        let value = match parse_vm_stat_line(string_of(line.as_slice()).as_str()) {
            Some(n) => n,
            None => 0,
        };
        if contains_chars(line.as_slice(), header.as_slice()) {
            match first_digit_word_exec(line.as_slice(), 0) {
                Some(w) => match parse_unsigned_chars(w.as_slice(), u64::MAX) {
                    Some(n) => {
                        st = VmStat { page_size: n, ..st };
                    },
                    None => {},
                },
                None => {},
            }
        } else if starts_with_chars(line.as_slice(), p_free.as_slice()) {
            st = VmStat { free: value, ..st };
        } else if starts_with_chars(line.as_slice(), p_inactive.as_slice()) {
            st = VmStat { inactive: value, ..st };
        } else if starts_with_chars(line.as_slice(), p_purgeable.as_slice()) {
            st = VmStat { purgeable: value, ..st };
        } else if starts_with_chars(line.as_slice(), p_speculative.as_slice()) {
            st = VmStat { speculative: value, ..st };
        }
        i = i + 1;
    }
    assert(ls.take(i as int) =~= ls);
    let total: u128 = st.free as u128 + st.inactive as u128 + st.purgeable as u128
        + st.speculative as u128;
    if st.page_size == 0 {
        assert(tally_bytes(st) == 0);
        return Some(0);
    }
    let cap: u128 = (u64::MAX / st.page_size) as u128;
    if total <= cap {
        proof {
            lemma_fits(total as int, st.page_size as int, u64::MAX as int);
        }
        Some((total * st.page_size as u128) as u64)
    } else {
        proof {
            lemma_too_big(total as int, st.page_size as int, u64::MAX as int);
        }
        None
    }
}

proof fn lemma_fits(t: int, p: int, m: int)
    by (nonlinear_arith)
    requires
        0 <= t,
        0 < p,
        0 <= m,
        t <= m / p,
    ensures
        t * p <= m,
{
}

proof fn lemma_too_big(t: int, p: int, m: int)
    by (nonlinear_arith)
    requires
        0 <= t,
        0 < p,
        0 <= m,
        t > m / p,
    ensures
        t * p > m,
{
}

} // verus!
