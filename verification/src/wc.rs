//! Text counting: lines, words, and non-whitespace characters over a
//! sequence of lines read without their line endings. A word is a
//! maximal run of non-whitespace characters; a run that ends exactly at
//! a line break and continues on the next line counts as one word, since
//! the line endings themselves are never seen.

use vstd::prelude::*;

use crate::text::str_to_chars;

verus! {

/// Whether `c` carries the White_Space property.
pub open spec fn spec_is_whitespace(c: char) -> bool {
    ||| c == '\t'
    ||| c == '\n'
    ||| c == '\u{b}'
    ||| c == '\u{c}'
    ||| c == '\r'
    ||| c == ' '
    ||| c == '\u{85}'
    ||| c == '\u{a0}'
    ||| c == '\u{1680}'
    ||| ('\u{2000}' <= c && c <= '\u{200a}')
    ||| c == '\u{2028}'
    ||| c == '\u{2029}'
    ||| c == '\u{202f}'
    ||| c == '\u{205f}'
    ||| c == '\u{3000}'
}

/// Decides the White_Space property of `c`.
pub fn is_whitespace_char(c: char) -> (r: bool)
    ensures
        r == spec_is_whitespace(c),
{
    c == '\t' || c == '\n' || c == '\u{b}' || c == '\u{c}' || c == '\r' || c == ' ' || c
        == '\u{85}' || c == '\u{a0}' || c == '\u{1680}' || ('\u{2000}' <= c && c <= '\u{200a}')
        || c == '\u{2028}' || c == '\u{2029}' || c == '\u{202f}' || c == '\u{205f}' || c
        == '\u{3000}'
}

/// The concatenation of a sequence of lines, with nothing between them.
pub open spec fn spec_concat(ls: Seq<Seq<char>>) -> Seq<char>
    decreases ls.len(),
{
    if ls.len() == 0 {
        Seq::empty()
    } else {
        ls[0] + spec_concat(ls.skip(1))
    }
}

/// The number of non-whitespace characters in `s`.
pub open spec fn spec_char_count(s: Seq<char>) -> nat
    decreases s.len(),
{
    if s.len() == 0 {
        0
    } else {
        (if spec_is_whitespace(s[0]) {
            0nat
        } else {
            1nat
        }) + spec_char_count(s.skip(1))
    }
}

/// The number of maximal non-whitespace runs in `s`, given whether a run
/// is already open just before `s` begins.
pub open spec fn spec_word_count(s: Seq<char>, run_open: bool) -> nat
    decreases s.len(),
{
    if s.len() == 0 {
        if run_open {
            1
        } else {
            0
        }
    } else if !spec_is_whitespace(s[0]) {
        spec_word_count(s.skip(1), true)
    } else {
        (if run_open {
            1nat
        } else {
            0nat
        }) + spec_word_count(s.skip(1), false)
    }
}

/// Counts never exceed the text's length (plus the one pending run).
proof fn lemma_counts_bounded(s: Seq<char>, run_open: bool)
    ensures
        spec_char_count(s) <= s.len(),
        spec_word_count(s, run_open) <= s.len() + (if run_open {
            1int
        } else {
            0int
        }),
    decreases s.len(),
{
    if s.len() > 0 {
        lemma_counts_bounded(s.skip(1), true);
        lemma_counts_bounded(s.skip(1), false);
    }
}

/// Counts the lines, the words, and the non-whitespace characters of a
/// text given as its lines, the line endings already removed.
pub fn count_text(lines: &Vec<String>) -> (r: (usize, usize, usize))
    requires
        spec_concat(lines@.map_values(|l: String| l@)).len() + 1 <= usize::MAX,
    ensures
        r.0 == lines@.len(),
        r.1 == spec_word_count(spec_concat(lines@.map_values(|l: String| l@)), false),
        r.2 == spec_char_count(spec_concat(lines@.map_values(|l: String| l@))),
{
    let ghost views = lines@.map_values(|l: String| l@);
    let ghost whole = spec_concat(views);
    let mut word_cnt: usize = 0;
    let mut char_cnt: usize = 0;
    let mut prev_non_space = false;
    let mut i: usize = 0;
    proof {
        assert(views.skip(0) =~= views);
    }
    while i < lines.len()
        invariant
            0 <= i <= lines@.len(),
            views == lines@.map_values(|l: String| l@),
            whole == spec_concat(views),
            whole.len() + 1 <= usize::MAX,
            spec_word_count(whole, false) == word_cnt + spec_word_count(
                spec_concat(views.skip(i as int)),
                prev_non_space,
            ),
            spec_char_count(whole) == char_cnt + spec_char_count(
                spec_concat(views.skip(i as int)),
            ),
            char_cnt + spec_concat(views.skip(i as int)).len() <= whole.len(),
            word_cnt + (if prev_non_space {
                1int
            } else {
                0int
            }) <= char_cnt,
        decreases lines@.len() - i,
    {
        let li = str_to_chars(lines[i].as_str());
        proof {
            assert(views[i as int] == lines@[i as int]@);
            assert(views.skip(i as int)[0] == views[i as int]);
            assert(views.skip(i as int).skip(1) =~= views.skip(i + 1));
            assert(spec_concat(views.skip(i as int)) == li@ + spec_concat(views.skip(i + 1)));
            assert(li@.skip(0) + spec_concat(views.skip(i + 1)) =~= li@ + spec_concat(
                views.skip(i + 1),
            ));
        }
        let ghost line_rest = spec_concat(views.skip(i + 1));
        let mut k: usize = 0;
        while k < li.len()
            invariant
                0 <= k <= li@.len(),
                whole.len() + 1 <= usize::MAX,
                line_rest == spec_concat(views.skip(i + 1)),
                spec_word_count(whole, false) == word_cnt + spec_word_count(
                    li@.skip(k as int) + line_rest,
                    prev_non_space,
                ),
                spec_char_count(whole) == char_cnt + spec_char_count(
                    li@.skip(k as int) + line_rest,
                ),
                char_cnt + (li@.skip(k as int) + line_rest).len() <= whole.len(),
                word_cnt + (if prev_non_space {
                    1int
                } else {
                    0int
                }) <= char_cnt,
            decreases li@.len() - k,
        {
            let ghost rem = li@.skip(k as int) + line_rest;
            proof {
                assert(rem.len() > 0);
                assert(rem[0] == li@[k as int]);
                assert(rem.skip(1) =~= li@.skip(k + 1) + line_rest);
            }
            let ch = li[k];
            if !is_whitespace_char(ch) {
                proof {
                    lemma_counts_bounded(rem.skip(1), true);
                    lemma_counts_bounded(rem.skip(1), false);
                }
                char_cnt = char_cnt + 1;
                prev_non_space = true;
            } else {
                if prev_non_space {
                    word_cnt = word_cnt + 1;
                }
                prev_non_space = false;
            }
            k = k + 1;
        }
        proof {
            assert(li@.skip(li@.len() as int) =~= Seq::<char>::empty());
            assert(li@.skip(li@.len() as int) + line_rest =~= line_rest);
        }
        i = i + 1;
    }
    proof {
        assert(views.skip(views.len() as int) =~= Seq::<Seq<char>>::empty());
    }
    if prev_non_space {
        word_cnt = word_cnt + 1;
    }
    (lines.len(), word_cnt, char_cnt)
}

} // verus!
