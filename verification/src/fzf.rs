//! Decisions around the file picker: what the user picked, and whether they declined
//! to install the picker.

use vstd::prelude::*;

use crate::text::{decode_lossy, lowercase, to_lowercase, trim, trimmed, utf8_lossy};

verus! {

/// The path the picker printed, where it exited successfully and printed more than white
/// space.
pub open spec fn chosen_spec(success: bool, stdout: Seq<u8>) -> Option<Seq<char>> {
    let chosen = trim(utf8_lossy(stdout));
    if !success || chosen.len() == 0 {
        None
    } else {
        Some(chosen)
    }
}

/// The path picked, from the picker's exit status and what it printed: `None` where the
/// user cancelled (the picker failed) or picked nothing.
pub fn chosen_file(success: bool, stdout: &[u8]) -> (r: Option<String>)
    ensures
        match r {
            Some(p) => chosen_spec(success, stdout@) == Some(p@),
            None => chosen_spec(success, stdout@) is None,
        },
{
    if !success {
        return None;
    }
    let text = decode_lossy(stdout);
    let chosen = trimmed(text.as_str());
    if chosen.as_str().unicode_len() == 0 {
        None
    } else {
        Some(chosen)
    }
}

/// Whether a text is plain ASCII.
pub open spec fn is_ascii_text(t: Seq<char>) -> bool {
    forall|i: int| 0 <= i < t.len() ==> (#[trigger] t[i] as u32) < 128
}

/// `n` or `N`.
pub open spec fn is_n(c: char) -> bool {
    c == 'n' || c == 'N'
}

/// `o` or `O`.
pub open spec fn is_o(c: char) -> bool {
    c == 'o' || c == 'O'
}

/// Whether an answer to the install question declines: its text without surrounding
/// white space, lower-cased, is `n` or `no`. Lower-casing ASCII text maps `A` to `Z` onto
/// `a` to `z` and keeps the rest, so ASCII text declines exactly where it reads `n` or
/// `no` in any case; other text is lower-cased as `str::to_lowercase` does.
pub open spec fn declines_spec(answer: Seq<char>) -> bool {
    let t = trim(answer);
    if is_ascii_text(t) {
        (t.len() == 1 && is_n(t[0])) || (t.len() == 2 && is_n(t[0]) && is_o(t[1]))
    } else {
        let a = lowercase(t);
        a == "n"@ || a == "no"@
    }
}

/// Whether the user's answer declines installing the picker.
pub fn declines_install(answer: &str) -> (r: bool)
    ensures
        r == declines_spec(answer@),
{
    let t = trimmed(answer);
    let n = t.as_str().unicode_len();
    let mut i: usize = 0;
    while i < n
        invariant
            n == t@.len(),
            t@ == trim(answer@),
            i <= n,
            forall|j: int| 0 <= j < i ==> (#[trigger] t@[j] as u32) < 128,
        decreases n - i,
    {
        if (t.as_str().get_char(i) as u32) >= 128 {
            assert(!is_ascii_text(t@)) by {
                assert((t@[i as int] as u32) >= 128);
            }
            let a = to_lowercase(t.as_str());
            return a == String::from_str("n") || a == String::from_str("no");
        }
        i = i + 1;
    }
    if n == 1 {
        let c = t.as_str().get_char(0);
        c == 'n' || c == 'N'
    } else if n == 2 {
        let c = t.as_str().get_char(0);
        let d = t.as_str().get_char(1);
        (c == 'n' || c == 'N') && (d == 'o' || d == 'O')
    } else {
        false
    }
}

/// An answer declines exactly where, without surrounding white space, it is `n` or `no`
/// in any case: `n`, `N`, `no`, `No`, `nO` or `NO` decline, and no other ASCII answer does.
pub proof fn law_declines_n_or_no(answer: Seq<char>)
    ensures
        ({
            let t = trim(answer);
            let n_or_no = t == seq!['n'] || t == seq!['N'] || t == seq!['n', 'o'] || t == seq!['N', 'o']
                || t == seq!['n', 'O'] || t == seq!['N', 'O'];
            &&& n_or_no ==> declines_spec(answer)
            &&& is_ascii_text(t) ==> (declines_spec(answer) <==> n_or_no)
        }),
{
    let t = trim(answer);
    if t.len() == 1 {
        assert(t =~= seq![t[0]]);
    }
    if t.len() == 2 {
        assert(t =~= seq![t[0], t[1]]);
    }
    if t == seq!['n'] || t == seq!['N'] || t == seq!['n', 'o'] || t == seq!['N', 'o'] || t == seq!['n', 'O']
        || t == seq!['N', 'O'] {
        assert(is_ascii_text(t));
    }
}

/// The picker's answer: nothing where it failed (the user cancelled) or printed only white
/// space, else exactly what it printed without surrounding white space.
pub proof fn law_chosen_file(success: bool, stdout: Seq<u8>)
    ensures
        !success ==> chosen_spec(success, stdout) is None,
        success && trim(utf8_lossy(stdout)).len() == 0 ==> chosen_spec(success, stdout) is None,
        success && trim(utf8_lossy(stdout)).len() > 0 ==> chosen_spec(success, stdout) == Some(
            trim(utf8_lossy(stdout)),
        ),
{
}

} // verus!
