//! Word-wrapping for status-screen text.

use vstd::prelude::*;
use crate::selection::chars_to_string;

verus! {

/// Relies on str::chars: the characters of the slice, in order.
#[verifier::external_body]
pub fn str_chars(s: &str) -> (r: Vec<char>)
    ensures
        r@ == s@,
{
    s.chars().collect()
}

/// Whether the text contains a space.
pub open spec fn has_space(s: Seq<char>) -> bool {
    exists|i: int| 0 <= i < s.len() && s[i] == ' '
}

/// The words of `s`: its maximal runs of non-space characters, in order.
pub open spec fn words_of(s: Seq<char>) -> Seq<Seq<char>>
    decreases s.len(),
{
    if s.len() == 0 {
        Seq::empty()
    } else if s.last() == ' ' {
        words_of(s.drop_last())
    } else if s.len() >= 2 && s[s.len() - 2] != ' ' {
        let rest = words_of(s.drop_last());
        rest.update(rest.len() - 1, rest.last().push(s.last()))
    } else {
        words_of(s.drop_last()).push(seq![s.last()])
    }
}

/// The words of all lines, in order.
pub open spec fn flat_words(lines: Seq<String>) -> Seq<Seq<char>>
    decreases lines.len(),
{
    if lines.len() == 0 {
        Seq::empty()
    } else {
        flat_words(lines.drop_last()) + words_of(lines.last()@)
    }
}

/// A text without spaces is one word (or none, when empty).
pub proof fn lemma_words_single(w: Seq<char>)
    requires
        !has_space(w),
        w.len() > 0,
    ensures
        words_of(w) == seq![w],
    decreases w.len(),
{
    if w.len() == 1 {
        assert(words_of(w.drop_last()) =~~= Seq::<Seq<char>>::empty());
        assert(words_of(w) =~~= seq![w]);
    } else {
        assert(!has_space(w.drop_last()));
        lemma_words_single(w.drop_last());
        assert(w[w.len() - 2] != ' ');
        assert(w.drop_last().push(w.last()) =~= w);
        assert(words_of(w) =~~= seq![w]);
    }
}

/// Appending a space-free run after a space boundary appends its word.
pub proof fn lemma_words_concat(x: Seq<char>, w: Seq<char>)
    requires
        x.len() == 0 || x.last() == ' ',
        !has_space(w),
    ensures
        words_of(x + w) == words_of(x) + words_of(w),
    decreases w.len(),
{
    if w.len() == 0 {
        assert(x + w =~= x);
        assert(words_of(x + w) =~~= words_of(x) + words_of(w));
    } else {
        let w0 = w.drop_last();
        assert(!has_space(w0));
        lemma_words_concat(x, w0);
        let s = x + w;
        assert(s.drop_last() =~= x + w0);
        assert(s.last() == w.last());
        assert(s.last() != ' ');
        if w.len() == 1 {
            // The run starts right after the boundary: a fresh word.
            assert(s.len() < 2 || s[s.len() - 2] == ' ');
            assert(words_of(w) =~~= seq![seq![w.last()]]);
            assert(words_of(s) =~~= words_of(x) + words_of(w));
        } else {
            // The run continues: the last word grows by one character.
            lemma_words_single(w0);
            lemma_words_single(w);
            assert(s[s.len() - 2] == w[w.len() - 2]);
            assert(s[s.len() - 2] != ' ');
            let rest = words_of(s.drop_last());
            assert(rest =~~= words_of(x).push(w0));
            assert(rest.last() == w0);
            assert(w0.push(w.last()) =~= w);
            assert(words_of(s) =~~= words_of(x) + seq![w]);
        }
    }
}

/// Appending a trailing space changes no words.
pub proof fn lemma_words_space(x: Seq<char>)
    ensures
        words_of(x.push(' ')) == words_of(x),
{
    assert(x.push(' ').drop_last() =~= x);
}

/// A well-formed line under construction: empty, within the width, or a
/// single unbreakable word.
pub open spec fn line_ok(line: Seq<char>, cols: nat) -> bool {
    line.len() == 0 || line.len() <= cols || !has_space(line)
}

/// All finished lines are non-empty and either fit or are unbreakable.
pub open spec fn lines_ok(lines: Seq<String>, cols: nat) -> bool {
    forall|k: int|
        0 <= k < lines.len() ==> (#[trigger] lines[k])@.len() > 0 && (lines[k]@.len() <= cols
            || !has_space(lines[k]@))
}

/// Fold the finished word into the line, starting a new line when it no
/// longer fits. The words recorded so far are preserved exactly.
#[verifier::rlimit(100)]
fn close_word(lines: &mut Vec<String>, line: &mut Vec<char>, word: &mut Vec<char>, cols: usize)
    requires
        cols > 0,
        !has_space(old(word)@),
        line_ok(old(line)@, cols as nat),
        lines_ok(old(lines)@, cols as nat),
    ensures
        final(word)@.len() == 0,
        !has_space(final(word)@),
        line_ok(final(line)@, cols as nat),
        lines_ok(final(lines)@, cols as nat),
        flat_words(final(lines)@) + words_of(final(line)@) == flat_words(old(lines)@) + words_of(
            old(line)@,
        ) + words_of(old(word)@),
{
    if line.len() == 0 {
        core::mem::swap(line, word);
        *word = Vec::new();
        proof {
            assert(words_of(old(line)@) =~~= Seq::<Seq<char>>::empty());
            assert(flat_words(lines@) + words_of(line@) =~~= flat_words(old(lines)@) + words_of(
                old(line)@,
            ) + words_of(old(word)@));
        }
    } else {
        let fits = word.len() < cols && line.len() <= cols - 1 - word.len();
        if fits {
            line.push(' ');
            let ghost spaced = line@;
            let mut wi: usize = 0;
            while wi < word.len()
                invariant
                    wi <= word@.len(),
                    spaced == old(line)@.push(' '),
                    line@ == spaced + word@.take(wi as int),
                    line@.len() + word@.len() - wi <= cols,
                decreases word@.len() - wi,
            {
                let c = word[wi];
                line.push(c);
                proof {
                    assert(line@ =~= spaced + word@.take(wi + 1));
                }
                wi += 1;
            }
            proof {
                assert(word@.take(word@.len() as int) =~= word@);
                assert(line@ =~= old(line)@.push(' ') + word@);
                lemma_words_space(old(line)@);
                lemma_words_concat(old(line)@.push(' '), word@);
                assert(words_of(line@) =~~= words_of(old(line)@) + words_of(word@));
            }
            *word = Vec::new();
        } else {
            let done = chars_to_string(line);
            lines.push(done);
            proof {
                assert(lines@.drop_last() =~= old(lines)@);
                assert(flat_words(lines@) =~~= flat_words(old(lines)@) + words_of(old(line)@));
            }
            *line = Vec::new();
            core::mem::swap(line, word);
            *word = Vec::new();
        }
    }
}

/// Word-wrap `text` to fit within `cols` columns: words pack greedily
/// onto lines separated by single spaces. Every returned line is
/// non-empty; a line exceeds `cols` only when it is one unbreakable
/// word; and the lines carry exactly the input's words, in order. With
/// `cols` of zero the text comes back whole.
pub fn wrap_text(text: &str, cols: usize) -> (r: Vec<String>)
    ensures
        cols == 0 ==> r@.len() == 1 && r@[0]@ == text@,
        cols > 0 ==> lines_ok(r@, cols as nat),
        cols > 0 ==> flat_words(r@) == words_of(text@),
{
    let chars = str_chars(text);
    if cols == 0 {
        let whole = chars_to_string(&chars);
        let mut out: Vec<String> = Vec::new();
        out.push(whole);
        return out;
    }

    let mut lines: Vec<String> = Vec::new();
    let mut line: Vec<char> = Vec::new();
    let mut word: Vec<char> = Vec::new();
    // `base` is the processed prefix up to the start of the current word.
    let ghost mut base: Seq<char> = Seq::empty();
    let mut i: usize = 0;
    while i < chars.len()
        invariant
            cols > 0,
            i <= chars@.len(),
            chars@.take(i as int) == base + word@,
            base.len() == 0 || base.last() == ' ',
            !has_space(word@),
            line_ok(line@, cols as nat),
            lines_ok(lines@, cols as nat),
            flat_words(lines@) + words_of(line@) == words_of(base),
        decreases chars@.len() - i,
    {
        let c = chars[i];
        if c == ' ' {
            proof {
                lemma_words_concat(base, word@);
            }
            close_word(&mut lines, &mut line, &mut word, cols);
            proof {
                lemma_words_space(chars@.take(i as int));
                assert(chars@.take(i + 1) =~= chars@.take(i as int).push(' '));
                base = chars@.take(i + 1);
                assert(words_of(base) == words_of(chars@.take(i as int)));
                assert(flat_words(lines@) + words_of(line@) =~~= words_of(base));
                assert(chars@.take(i + 1) =~= base + word@);
            }
        } else {
            word.push(c);
            proof {
                assert(!has_space(word@));
                assert(chars@.take(i + 1) =~= base + word@);
            }
        }
        i += 1;
    }
    proof {
        assert(chars@.take(chars@.len() as int) =~= chars@);
        lemma_words_concat(base, word@);
    }
    close_word(&mut lines, &mut line, &mut word, cols);
    let ghost closed_lines = lines@;
    let ghost closed_line = line@;
    if line.len() > 0 {
        let done = chars_to_string(&line);
        lines.push(done);
        proof {
            assert(lines@.drop_last() =~= closed_lines);
            assert(flat_words(lines@) =~~= flat_words(closed_lines) + words_of(closed_line));
            assert(flat_words(lines@) =~~= words_of(chars@));
        }
    } else {
        proof {
            assert(words_of(closed_line) =~~= Seq::<Seq<char>>::empty());
            assert(flat_words(lines@) =~~= words_of(chars@));
        }
    }
    lines
}

} // verus!
