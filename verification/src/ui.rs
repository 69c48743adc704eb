//! Text layout for the rendering layer: greedy word wrapping of chat
//! transcripts to a column width.

use vstd::prelude::*;
use crate::text::{chars_of, spec_split_nl, spec_split_ws, split_newlines, split_whitespace_words, string_append, string_push};

verus! {

/// A word cut into pieces of at most `k` characters, in order.
pub open spec fn spec_chunks(w: Seq<char>, k: int) -> Seq<Seq<char>>
    recommends
        k >= 1,
    decreases w.len(),
    when k >= 1
{
    if w.len() == 0 {
        Seq::<Seq<char>>::empty()
    } else if w.len() <= k {
        seq![w]
    } else {
        seq![w.take(k)] + spec_chunks(w.skip(k), k)
    }
}

/// One step of greedy wrapping: the finished lines so far and the line
/// under construction, after placing one more word.  A word wider than the
/// column flushes the current line and is cut into column-width pieces; a
/// word that does not fit starts a new line; otherwise it joins the
/// current line after a single space.
pub open spec fn spec_wrap_word(
    state: (Seq<Seq<char>>, Seq<char>),
    w: Seq<char>,
    k: int,
) -> (Seq<Seq<char>>, Seq<char>) {
    let lines = state.0;
    let cur = state.1;
    if w.len() > k {
        (
            (if cur.len() > 0 {
                lines.push(cur)
            } else {
                lines
            }) + spec_chunks(w, k),
            Seq::<char>::empty(),
        )
    } else if cur.len() + (if cur.len() > 0 {
        1int
    } else {
        0int
    }) + w.len() > k {
        (
            if cur.len() > 0 {
                lines.push(cur)
            } else {
                lines
            },
            w,
        )
    } else if cur.len() > 0 {
        (lines, cur + seq![' '] + w)
    } else {
        (lines, w)
    }
}

/// The wrapping state after the first `i` words of a paragraph.
pub open spec fn spec_wrap_words_prefix(
    words: Seq<Seq<char>>,
    k: int,
    i: int,
) -> (Seq<Seq<char>>, Seq<char>)
    decreases i,
{
    if i <= 0 {
        (Seq::<Seq<char>>::empty(), Seq::<char>::empty())
    } else {
        spec_wrap_word(spec_wrap_words_prefix(words, k, i - 1), words[i - 1], k)
    }
}

/// A whole paragraph wrapped: its words placed greedily, the last partial
/// line kept; a paragraph without words yields one empty line.
pub open spec fn spec_wrap_paragraph(p: Seq<char>, k: int) -> Seq<Seq<char>> {
    let words = spec_split_ws(p);
    if words.len() == 0 {
        seq![Seq::<char>::empty()]
    } else {
        let state = spec_wrap_words_prefix(words, k, words.len() as int);
        if state.1.len() > 0 {
            state.0.push(state.1)
        } else {
            state.0
        }
    }
}

/// The lines of the first `i` paragraphs, wrapped and concatenated.
pub open spec fn spec_wrap_paras_prefix(paras: Seq<Seq<char>>, k: int, i: int) -> Seq<Seq<char>>
    decreases i,
{
    if i <= 0 {
        Seq::<Seq<char>>::empty()
    } else {
        spec_wrap_paras_prefix(paras, k, i - 1) + spec_wrap_paragraph(paras[i - 1], k)
    }
}

/// A text wrapped to a column: each line-feed-separated paragraph wrapped
/// on its own, in order.
pub open spec fn spec_wrap_text(text: Seq<char>, k: int) -> Seq<Seq<char>> {
    let paras = spec_split_nl(text);
    spec_wrap_paras_prefix(paras, k, paras.len() as int)
}

/// Wraps `text` to lines of at most `max_width` characters: paragraphs are
/// kept apart, words are packed greedily with single spaces, and a word
/// wider than the column is cut into column-width pieces.
pub fn wrap_text(text: &str, max_width: usize) -> (r: Vec<String>)
    requires
        max_width >= 1,
    ensures
        r@.map_values(|l: String| l@) == spec_wrap_text(text@, max_width as int),
{
    let ghost k = max_width as int;
    let mut wrapped: Vec<String> = Vec::new();
    let paragraphs = split_newlines(text);
    let ghost paras = spec_split_nl(text@);
    proof {
        assert(wrapped@.map_values(|l: String| l@) =~= spec_wrap_paras_prefix(paras, k, 0));
    }
    let np = paragraphs.len();
    for pi in 0..np
        invariant
            max_width >= 1,
            k == max_width as int,
            np == paragraphs@.len(),
            paragraphs@.map_values(|p: String| p@) == paras,
            wrapped@.map_values(|l: String| l@) == spec_wrap_paras_prefix(paras, k, pi as int),
    {
        let paragraph = &paragraphs[pi];
        let ghost pv = paras[pi as int];
        proof {
            assert(paragraph@ == pv);
        }
        let ghost base = wrapped@.map_values(|l: String| l@);

        let words = split_whitespace_words(paragraph.as_str());
        let ghost wordsv = spec_split_ws(pv);
        if words.len() == 0 {
            let ghost w0 = wrapped@;
            wrapped.push(String::new());
            proof {
                assert(wrapped@.map_values(|l: String| l@) =~= base.push(Seq::<char>::empty()));
                assert(spec_wrap_paragraph(pv, k) =~= seq![Seq::<char>::empty()]);
                assert(base + spec_wrap_paragraph(pv, k) =~= base.push(Seq::<char>::empty()));
            }
        } else {
            let mut current_line = String::new();
            let mut cur_len: usize = 0;
            proof {
                assert(wrapped@.map_values(|l: String| l@) =~= base
                    + spec_wrap_words_prefix(wordsv, k, 0).0);
            }
            let nw = words.len();
            for wi in 0..nw
                invariant
                    max_width >= 1,
                    k == max_width as int,
                    nw == words@.len(),
                    words@.map_values(|w: String| w@) == wordsv,
                    cur_len == current_line@.len(),
                    wrapped@.map_values(|l: String| l@) == base + spec_wrap_words_prefix(
                        wordsv,
                        k,
                        wi as int,
                    ).0,
                    current_line@ == spec_wrap_words_prefix(wordsv, k, wi as int).1,
            {
                let word = &words[wi];
                let ghost wv = wordsv[wi as int];
                proof {
                    assert(word@ == wv);
                }
                let ghost state = spec_wrap_words_prefix(wordsv, k, wi as int);
                let ghost next = spec_wrap_word(state, wv, k);
                proof {
                    assert(spec_wrap_words_prefix(wordsv, k, wi + 1) == next);
                }

                let wchars = chars_of(word.as_str());
                let word_len = wchars.len();

                if word_len > max_width {
                    if cur_len > 0 {
                        let ghost before = wrapped@.map_values(|l: String| l@);
                        let done = current_line;
                        wrapped.push(done);
                        current_line = String::new();
                        cur_len = 0;
                        proof {
                            assert(wrapped@.map_values(|l: String| l@) =~= before.push(state.1));
                        }
                    }
                    let ghost flushed = wrapped@.map_values(|l: String| l@);
                    proof {
                        assert(flushed =~= base + (if state.1.len() > 0 {
                            state.0.push(state.1)
                        } else {
                            state.0
                        }));
                    }
                    let mut j: usize = 0;
                    proof {
                        assert(wv.skip(0) =~= wv);
                    }
                    while j < word_len
                        invariant
                            max_width >= 1,
                            k == max_width as int,
                            word_len == wchars@.len(),
                            wchars@ == wv,
                            j <= word_len,
                            current_line@.len() == 0,
                            cur_len == 0,
                            wrapped@.map_values(|l: String| l@) + spec_chunks(wv.skip(j as int), k)
                                == flushed + spec_chunks(wv, k),
                        decreases word_len - j,
                    {
                        let take = if word_len - j < max_width {
                            word_len - j
                        } else {
                            max_width
                        };
                        let ghost rem = wv.skip(j as int);
                        let mut chunk = String::new();
                        let mut ci: usize = 0;
                        while ci < take
                            invariant
                                j + take <= word_len,
                                word_len == wchars@.len(),
                                wchars@ == wv,
                                ci <= take,
                                chunk@ == wv.subrange(j as int, j + ci),
                            decreases take - ci,
                        {
                            proof {
                                assert(wv.subrange(j as int, j + ci + 1) =~= wv.subrange(
                                    j as int,
                                    j + ci,
                                ).push(wv[j + ci]));
                            }
                            string_push(&mut chunk, wchars[j + ci]);
                            ci = ci + 1;
                        }
                        let ghost before = wrapped@.map_values(|l: String| l@);
                        wrapped.push(chunk);
                        proof {
                            assert(wrapped@.map_values(|l: String| l@) =~= before.push(
                                wv.subrange(j as int, j + take),
                            ));
                            if word_len - j <= max_width {
                                assert(rem =~= wv.subrange(j as int, j + take));
                                assert(spec_chunks(rem, k) =~= seq![rem]);
                                assert(wv.skip((j + take) as int) =~= Seq::<char>::empty());
                                assert(spec_chunks(wv.skip((j + take) as int), k)
                                    =~= Seq::<Seq<char>>::empty());
                            } else {
                                assert(rem.take(k) =~= wv.subrange(j as int, j + take));
                                assert(rem.skip(k) =~= wv.skip((j + take) as int));
                                assert(spec_chunks(rem, k) =~= seq![rem.take(k)] + spec_chunks(
                                    rem.skip(k),
                                    k,
                                ));
                            }
                            assert(before.push(wv.subrange(j as int, j + take)) + spec_chunks(
                                wv.skip((j + take) as int),
                                k,
                            ) =~= before + spec_chunks(rem, k));
                        }
                        j = j + take;
                    }
                    proof {
                        assert(wv.skip(word_len as int) =~= Seq::<char>::empty());
                        assert(spec_chunks(wv.skip(word_len as int), k)
                            =~= Seq::<Seq<char>>::empty());
                        assert(wrapped@.map_values(|l: String| l@) =~= flushed + spec_chunks(
                            wv,
                            k,
                        ));
                        assert(wrapped@.map_values(|l: String| l@) =~= base + next.0);
                        assert(current_line@ =~= next.1);
                    }
                } else {
                    let space_needed: usize = if cur_len == 0 {
                        0
                    } else {
                        1
                    };
                    let overflow = match max_width.checked_sub(word_len) {
                        Some(rem) => match rem.checked_sub(space_needed) {
                            Some(t) => cur_len > t,
                            None => true,
                        },
                        None => true,
                    };
                    proof {
                        assert(overflow == (state.1.len() + (if state.1.len() > 0 {
                            1int
                        } else {
                            0int
                        }) + wv.len() > k));
                    }
                    if overflow {
                        if cur_len > 0 {
                            let ghost before = wrapped@.map_values(|l: String| l@);
                            let done = current_line;
                            wrapped.push(done);
                            proof {
                                assert(wrapped@.map_values(|l: String| l@) =~= before.push(
                                    state.1,
                                ));
                            }
                        }
                        current_line = word.clone();
                        cur_len = word_len;
                        proof {
                            assert(wrapped@.map_values(|l: String| l@) =~= base + next.0);
                        }
                    } else {
                        if cur_len > 0 {
                            string_push(&mut current_line, ' ');
                            cur_len = cur_len + 1;
                        }
                        string_append(&mut current_line, word.as_str());
                        cur_len = cur_len + word_len;
                        proof {
                            if state.1.len() > 0 {
                                assert(current_line@ =~= state.1 + seq![' '] + wv);
                            }
                            assert(wrapped@.map_values(|l: String| l@) =~= base + next.0);
                        }
                    }
                }
            }
            if cur_len > 0 {
                let ghost before = wrapped@.map_values(|l: String| l@);
                let ghost last = current_line@;
                wrapped.push(current_line);
                proof {
                    assert(wrapped@.map_values(|l: String| l@) =~= before.push(last));
                }
            }
            proof {
                assert(wrapped@.map_values(|l: String| l@) =~= base + spec_wrap_paragraph(
                    pv,
                    k,
                ));
            }
        }
        proof {
            assert(spec_wrap_paras_prefix(paras, k, pi + 1) == spec_wrap_paras_prefix(
                paras,
                k,
                pi as int,
            ) + spec_wrap_paragraph(paras[pi as int], k));
            assert(wrapped@.map_values(|l: String| l@) =~= spec_wrap_paras_prefix(
                paras,
                k,
                pi + 1,
            ));
        }
    }
    proof {
        assert(paras.len() == np);
        assert(wrapped@.map_values(|l: String| l@) == spec_wrap_text(text@, k));
    }
    wrapped
}

} // verus!
