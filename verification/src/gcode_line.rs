//! The line grammar of a G-code file: a comment starts at the first `;`,
//! the rest of the line splits into words at whitespace, and a line whose
//! first word is `G1` is a linear move whose remaining words each name an
//! axis letter followed by its value.

use vstd::prelude::*;

verus! {

/// Unicode `White_Space`: the characters at which words are split.
pub open spec fn is_whitespace(c: char) -> bool {
    let u = c as u32;
    ||| 0x09 <= u <= 0x0d
    ||| u == 0x20
    ||| u == 0x85
    ||| u == 0xa0
    ||| u == 0x1680
    ||| 0x2000 <= u <= 0x200a
    ||| u == 0x2028
    ||| u == 0x2029
    ||| u == 0x202f
    ||| u == 0x205f
    ||| u == 0x3000
}

/// Number of characters before the first `;` (all of them when there is none).
pub open spec fn code_len(s: Seq<char>) -> nat
    decreases s.len(),
{
    if s.len() == 0 {
        0
    } else if s[0] == ';' {
        0
    } else {
        1 + code_len(s.drop_first())
    }
}

/// The part of a line that precedes its comment.
pub open spec fn code_part(s: Seq<char>) -> Seq<char> {
    s.take(code_len(s) as int)
}

/// Left-to-right scan of `s`: the words completed so far and the word in progress.
pub open spec fn scan_words(s: Seq<char>) -> (Seq<Seq<char>>, Seq<char>)
    decreases s.len(),
{
    if s.len() == 0 {
        (Seq::empty(), Seq::empty())
    } else {
        let (done, cur) = scan_words(s.drop_last());
        if is_whitespace(s.last()) {
            if cur.len() == 0 {
                (done, cur)
            } else {
                (done.push(cur), Seq::empty())
            }
        } else {
            (done, cur.push(s.last()))
        }
    }
}

/// The maximal runs of non-whitespace characters of `s`, in order.
pub open spec fn split_whitespace(s: Seq<char>) -> Seq<Seq<char>> {
    let (done, cur) = scan_words(s);
    if cur.len() == 0 {
        done
    } else {
        done.push(cur)
    }
}

/// The words of a G-code line.
pub open spec fn line_words(line: Seq<char>) -> Seq<Seq<char>> {
    split_whitespace(code_part(line))
}

/// The command word of a linear move.
pub open spec fn linear_move_word() -> Seq<char> {
    seq!['G', '1']
}

/// One word of a move: its axis letter and the text of its value.
#[derive(Clone, Debug, PartialEq, Eq)]
pub struct MoveWord {
    pub letter: char,
    pub value: Vec<char>,
}

/// What a line of G-code holds.
#[derive(Clone, Debug, PartialEq, Eq)]
pub enum GCodeLine {
    /// No word before the comment.
    Blank,
    /// A command other than a linear move.
    Other,
    /// A linear move, with the words that follow `G1`.
    LinearMove(Vec<MoveWord>),
}

/// `w` is word `word` split into its first character and the rest.
pub open spec fn move_word_of(w: MoveWord, word: Seq<char>) -> bool {
    &&& word.len() > 0
    &&& w.letter == word[0]
    &&& w.value@ == word.drop_first()
}

/// `r` is what the line with characters `line` holds.
pub open spec fn describes_line(r: GCodeLine, line: Seq<char>) -> bool {
    let ws = line_words(line);
    match r {
        GCodeLine::Blank => ws.len() == 0,
        GCodeLine::Other => ws.len() > 0 && ws[0] != linear_move_word(),
        GCodeLine::LinearMove(words) => {
            &&& ws.len() > 0
            &&& ws[0] == linear_move_word()
            &&& words@.len() + 1 == ws.len()
            &&& forall|k: int| 0 <= k < words@.len() ==> move_word_of(#[trigger] words@[k], ws[k + 1])
        },
    }
}

/// Whether `c` is Unicode whitespace.
pub fn is_whitespace_char(c: char) -> (b: bool)
    ensures
        b == is_whitespace(c),
{
    let u = c as u32;
    (0x09 <= u && u <= 0x0d) || u == 0x20 || u == 0x85 || u == 0xa0 || u == 0x1680 || (0x2000
        <= u && u <= 0x200a) || u == 0x2028 || u == 0x2029 || u == 0x202f || u == 0x205f || u
        == 0x3000
}

proof fn lemma_code_len(s: Seq<char>, n: int)
    requires
        0 <= n <= s.len(),
        forall|j: int| 0 <= j < n ==> s[j] != ';',
        n == s.len() || s[n] == ';',
    ensures
        code_len(s) == n,
    decreases n,
{
    if n > 0 {
        lemma_code_len(s.drop_first(), n - 1);
    }
}

fn chars_of(line: &str) -> (v: Vec<char>)
    ensures
        v@ == line@,
{
    let mut v: Vec<char> = Vec::new();
    for c in it: line.chars()
        invariant
            v@ == it.seq().take(it.index() as int),
            it.seq() == line@,
    {
        v.push(c);
    }
    v
}

fn copy_chars(s: &Vec<char>, from: usize) -> (v: Vec<char>)
    requires
        from <= s@.len(),
    ensures
        v@ == s@.skip(from as int),
{
    let mut v: Vec<char> = Vec::new();
    let mut i = from;
    while i < s.len()
        invariant
            from <= i <= s@.len(),
            v@ == s@.subrange(from as int, i as int),
        decreases s@.len() - i,
    {
        v.push(s[i]);
        i = i + 1;
    }
    v
}

/// The character sequences held by a vector of words.
pub open spec fn words_view(w: Seq<Vec<char>>) -> Seq<Seq<char>> {
    w.map_values(|v: Vec<char>| v@)
}

/// Splits the characters `s[0..n]` into words at whitespace.
fn split_words(s: &Vec<char>, n: usize) -> (words: Vec<Vec<char>>)
    requires
        n <= s@.len(),
    ensures
        words_view(words@) == split_whitespace(s@.take(n as int)),
{
    let mut words: Vec<Vec<char>> = Vec::new();
    let mut cur: Vec<char> = Vec::new();
    let mut i: usize = 0;
    assert(s@.take(0) =~= Seq::<char>::empty());
    assert(words_view(words@) =~= Seq::<Seq<char>>::empty());
    while i < n
        invariant
            i <= n <= s@.len(),
            words_view(words@) == scan_words(s@.take(i as int)).0,
            cur@ == scan_words(s@.take(i as int)).1,
        decreases n - i,
    {
        let c = s[i];
        let ghost before = words@;
        proof {
            assert(s@.take(i + 1).drop_last() =~= s@.take(i as int));
            assert(s@.take(i + 1).last() == c);
        }
        if is_whitespace_char(c) {
            if cur.len() > 0 {
                let done = cur;
                cur = Vec::new();
                words.push(done);
                assert(words_view(words@) =~= words_view(before).push(done@));
            }
        } else {
            cur.push(c);
        }
        i = i + 1;
    }
    assert(s@.take(i as int) == s@.take(n as int));
    if cur.len() > 0 {
        let ghost before = words@;
        let last = cur;
        words.push(last);
        assert(words_view(words@) =~= words_view(before).push(last@));
    }
    words
}

/// A word split into its first character and the rest.
fn split_word(w: &Vec<char>) -> (mw: MoveWord)
    requires
        w@.len() > 0,
    ensures
        move_word_of(mw, w@),
{
    MoveWord { letter: w[0], value: copy_chars(w, 1) }
}

/// The words after the first, each split into its letter and its value text.
fn move_words(words: &Vec<Vec<char>>) -> (moves: Vec<MoveWord>)
    requires
        words@.len() > 0,
        forall|j: int| 0 <= j < words@.len() ==> (#[trigger] words@[j])@.len() > 0,
    ensures
        moves@.len() + 1 == words@.len(),
        forall|j: int| 0 <= j < moves@.len() ==> move_word_of(#[trigger] moves@[j], words@[j + 1]@),
{
    let mut moves: Vec<MoveWord> = Vec::new();
    let mut k: usize = 1;
    while k < words.len()
        invariant
            1 <= k <= words@.len(),
            forall|j: int| 0 <= j < words@.len() ==> (#[trigger] words@[j])@.len() > 0,
            moves@.len() + 1 == k,
            forall|j: int| 0 <= j < moves@.len() ==> move_word_of(#[trigger] moves@[j], words@[j + 1]@),
        decreases words@.len() - k,
    {
        let mw = split_word(&words[k]);
        moves.push(mw);
        k = k + 1;
    }
    moves
}

/// Reads one line of G-code (without its line terminator).
pub fn parse_line(line: &str) -> (r: GCodeLine)
    ensures
        describes_line(r, line@),
{
    let chars = chars_of(line);
    let mut n: usize = 0;
    while n < chars.len() && chars[n] != ';'
        invariant
            n <= chars@.len(),
            forall|j: int| 0 <= j < n ==> chars@[j] != ';',
        decreases chars@.len() - n,
    {
        n = n + 1;
    }
    proof {
        lemma_code_len(chars@, n as int);
    }
    let words = split_words(&chars, n);
    let ghost ws = line_words(line@);
    assert(words_view(words@) == ws);
    if words.len() == 0 {
        return GCodeLine::Blank;
    }
    assert(words@[0]@ == ws[0]);
    let first = &words[0];
    if !(first.len() == 2 && first[0] == 'G' && first[1] == '1') {
        assert(ws[0] != linear_move_word()) by {
            if ws[0] == linear_move_word() {
                assert(first@[0] == 'G' && first@[1] == '1');
            }
        }
        return GCodeLine::Other;
    }
    assert(ws[0] == linear_move_word());
    proof {
        lemma_split_whitespace(code_part(line@));
        assert forall|j: int| 0 <= j < words@.len() implies (#[trigger] words@[j])@.len() > 0 by {
            assert(words_view(words@)[j] == words@[j]@);
        }
    }
    let moves = move_words(&words);
    proof {
        assert forall|j: int| 0 <= j < moves@.len() implies move_word_of(#[trigger] moves@[j], ws[j + 1]) by {
            assert(words_view(words@)[j + 1] == words@[j + 1]@);
        }
    }
    GCodeLine::LinearMove(moves)
}

/// A comment runs to the end of its line: whatever follows the first `;`
/// does not change the words of the line.
pub proof fn lemma_comment_ignored(a: Seq<char>, b: Seq<char>, c: Seq<char>)
    ensures
        line_words(a + seq![';'] + b) == line_words(a + seq![';'] + c),
{
    lemma_code_part_prefix(a, b, c);
}

proof fn lemma_code_len_bound(s: Seq<char>)
    ensures
        code_len(s) <= s.len(),
    decreases s.len(),
{
    if s.len() > 0 {
        lemma_code_len_bound(s.drop_first());
    }
}

proof fn lemma_code_part_prefix(a: Seq<char>, b: Seq<char>, c: Seq<char>)
    ensures
        code_part(a + seq![';'] + b) == code_part(a + seq![';'] + c),
    decreases a.len(),
{
    let s = a + seq![';'] + b;
    let t = a + seq![';'] + c;
    if a.len() == 0 {
        assert(s[0] == ';' && t[0] == ';');
        assert(code_part(s) =~= code_part(t));
    } else {
        lemma_code_part_prefix(a.drop_first(), b, c);
        assert(s.drop_first() =~= a.drop_first() + seq![';'] + b);
        assert(t.drop_first() =~= a.drop_first() + seq![';'] + c);
        assert(s[0] == a[0] && t[0] == a[0]);
        if a[0] == ';' {
            assert(code_part(s) =~= code_part(t));
        } else {
            lemma_code_len_bound(s.drop_first());
            lemma_code_len_bound(t.drop_first());
            let n = code_len(s.drop_first());
            assert(code_part(s.drop_first()).len() == n);
            assert(code_len(t.drop_first()) == n);
            assert(code_len(s) == n + 1 && code_len(t) == n + 1);
            assert(code_part(s.drop_first()) == code_part(t.drop_first()));
            assert forall|i: int| 0 <= i < n + 1 implies #[trigger] s[i] == t[i] by {
                if i > 0 {
                    assert(s[i] == s.drop_first()[i - 1]);
                    assert(t[i] == t.drop_first()[i - 1]);
                    assert(code_part(s.drop_first())[i - 1] == s.drop_first()[i - 1]);
                    assert(code_part(t.drop_first())[i - 1] == t.drop_first()[i - 1]);
                }
            }
            assert(code_part(s) =~= code_part(t));
        }
    }
}

/// The characters of `s` that are not whitespace, in order.
pub open spec fn non_whitespace(s: Seq<char>) -> Seq<char>
    decreases s.len(),
{
    if s.len() == 0 {
        s
    } else if is_whitespace(s.last()) {
        non_whitespace(s.drop_last())
    } else {
        non_whitespace(s.drop_last()).push(s.last())
    }
}

/// `w` is a word: non-empty and free of whitespace.
pub open spec fn is_word(w: Seq<char>) -> bool {
    &&& w.len() > 0
    &&& forall|i: int| 0 <= i < w.len() ==> !is_whitespace(#[trigger] w[i])
}

/// Splitting at whitespace gives words, and loses nothing else: the words,
/// put back together, are the characters of `s` that are not whitespace.
pub proof fn lemma_split_whitespace(s: Seq<char>)
    ensures
        forall|k: int|
            0 <= k < split_whitespace(s).len() ==> is_word(#[trigger] split_whitespace(s)[k]),
        split_whitespace(s).flatten() == non_whitespace(s),
{
    lemma_scan_words(s);
    let (done, cur) = scan_words(s);
    if cur.len() > 0 {
        done.lemma_flatten_push(cur);
        assert forall|k: int| 0 <= k < split_whitespace(s).len() implies is_word(
            #[trigger] split_whitespace(s)[k],
        ) by {
            if k < done.len() {
                assert(split_whitespace(s)[k] == done[k]);
            }
        }
    } else {
        assert(done.flatten() + cur =~= done.flatten());
    }
}

/// Words joined with single spaces.
pub open spec fn join_words(ws: Seq<Seq<char>>) -> Seq<char>
    decreases ws.len(),
{
    if ws.len() == 0 {
        Seq::empty()
    } else if ws.len() == 1 {
        ws[0]
    } else {
        join_words(ws.drop_last()) + seq![' '] + ws.last()
    }
}

/// Splitting undoes joining: words joined with single spaces split back
/// into the same words. So the split cuts at every whitespace run and
/// nowhere else.
pub proof fn lemma_split_join(ws: Seq<Seq<char>>)
    requires
        forall|k: int| 0 <= k < ws.len() ==> is_word(#[trigger] ws[k]),
    ensures
        split_whitespace(join_words(ws)) == ws,
{
    if ws.len() == 0 {
        assert(scan_words(Seq::<char>::empty()) == (Seq::<Seq<char>>::empty(), Seq::<char>::empty()));
    } else {
        lemma_scan_join(ws);
        assert(ws.drop_last().push(ws.last()) =~= ws);
    }
}

/// A line written as words joined by single spaces, with no `;` in any
/// word, reads back as exactly those words.
pub proof fn lemma_line_words_of_joined(ws: Seq<Seq<char>>)
    requires
        forall|k: int| 0 <= k < ws.len() ==> is_word(#[trigger] ws[k]),
        forall|k: int, i: int| 0 <= k < ws.len() && 0 <= i < ws[k].len() ==> #[trigger] ws[k][i] != ';',
    ensures
        line_words(join_words(ws)) == ws,
{
    lemma_join_has_no_semicolon(ws);
    let s = join_words(ws);
    lemma_code_len(s, s.len() as int);
    assert(code_part(s) =~= s);
    lemma_split_join(ws);
}

proof fn lemma_join_has_no_semicolon(ws: Seq<Seq<char>>)
    requires
        forall|k: int, i: int| 0 <= k < ws.len() && 0 <= i < ws[k].len() ==> #[trigger] ws[k][i] != ';',
    ensures
        forall|i: int| 0 <= i < join_words(ws).len() ==> #[trigger] join_words(ws)[i] != ';',
    decreases ws.len(),
{
    if ws.len() == 1 {
        assert forall|i: int| 0 <= i < join_words(ws).len() implies #[trigger] join_words(ws)[i] != ';' by {
            assert(ws[0][i] != ';');
        }
    } else if ws.len() > 1 {
        let prev = ws.drop_last();
        assert forall|k: int, i: int| 0 <= k < prev.len() && 0 <= i < prev[k].len() implies #[trigger] prev[k][i] != ';' by {
            assert(prev[k] == ws[k]);
            assert(ws[k][i] != ';');
        }
        lemma_join_has_no_semicolon(prev);
        let j = join_words(prev);
        let s = join_words(ws);
        assert forall|i: int| 0 <= i < s.len() implies #[trigger] s[i] != ';' by {
            if i < j.len() {
                assert(s[i] == j[i]);
            } else if i == j.len() {
                assert(s[i] == ' ');
            } else {
                let last = ws.len() - 1;
                assert(s[i] == ws[last][i - j.len() - 1]);
                assert(ws[last][i - j.len() - 1] != ';');
            }
        }
    }
}

proof fn lemma_scan_join(ws: Seq<Seq<char>>)
    requires
        ws.len() > 0,
        forall|k: int| 0 <= k < ws.len() ==> is_word(#[trigger] ws[k]),
    ensures
        scan_words(join_words(ws)) == (ws.drop_last(), ws.last()),
    decreases ws.len(),
{
    if ws.len() == 1 {
        lemma_scan_append_word(Seq::empty(), ws[0]);
        assert(Seq::<char>::empty() + ws[0] =~= ws[0]);
        assert(ws.drop_last() =~= Seq::<Seq<char>>::empty());
    } else {
        let prev = ws.drop_last();
        assert forall|k: int| 0 <= k < prev.len() implies is_word(#[trigger] prev[k]) by {
            assert(prev[k] == ws[k]);
        }
        lemma_scan_join(prev);
        let x = join_words(prev) + seq![' '];
        assert(x.drop_last() =~= join_words(prev));
        assert(x.last() == ' ');
        assert(is_whitespace(' '));
        assert(prev.last().len() > 0);
        assert(prev.drop_last().push(prev.last()) =~= prev);
        assert(scan_words(x) == (prev, Seq::<char>::empty()));
        lemma_scan_append_word(x, ws.last());
        assert(ws.last().len() > 0);
        assert(Seq::<char>::empty() + ws.last() =~= ws.last());
    }
}

/// Appending non-whitespace characters extends the word in progress.
proof fn lemma_scan_append_word(x: Seq<char>, w: Seq<char>)
    requires
        forall|i: int| 0 <= i < w.len() ==> !is_whitespace(#[trigger] w[i]),
    ensures
        scan_words(x + w) == (scan_words(x).0, scan_words(x).1 + w),
    decreases w.len(),
{
    if w.len() == 0 {
        assert(x + w =~= x);
        assert(scan_words(x).1 + w =~= scan_words(x).1);
    } else {
        let w0 = w.drop_last();
        assert forall|i: int| 0 <= i < w0.len() implies !is_whitespace(#[trigger] w0[i]) by {
            assert(w0[i] == w[i]);
        }
        lemma_scan_append_word(x, w0);
        assert((x + w).drop_last() =~= x + w0);
        assert((x + w).last() == w.last());
        assert(!is_whitespace(w[w.len() - 1]));
        assert((scan_words(x).1 + w0).push(w.last()) =~= scan_words(x).1 + w);
    }
}

proof fn lemma_scan_words(s: Seq<char>)
    ensures
        forall|k: int| 0 <= k < scan_words(s).0.len() ==> is_word(#[trigger] scan_words(s).0[k]),
        forall|i: int| 0 <= i < scan_words(s).1.len() ==> !is_whitespace(#[trigger] scan_words(s).1[i]),
        scan_words(s).0.flatten() + scan_words(s).1 == non_whitespace(s),
    decreases s.len(),
{
    if s.len() > 0 {
        lemma_scan_words(s.drop_last());
        let (done, cur) = scan_words(s.drop_last());
        let c = s.last();
        if is_whitespace(c) {
            if cur.len() > 0 {
                done.lemma_flatten_push(cur);
                assert(done.push(cur).flatten() + Seq::<char>::empty() =~= done.flatten() + cur);
                assert forall|k: int| 0 <= k < done.push(cur).len() implies is_word(
                    #[trigger] done.push(cur)[k],
                ) by {
                    if k < done.len() {
                        assert(done.push(cur)[k] == done[k]);
                    }
                }
            }
        } else {
            assert(done.flatten() + cur.push(c) =~= (done.flatten() + cur).push(c));
            assert forall|i: int| 0 <= i < cur.push(c).len() implies !is_whitespace(
                #[trigger] cur.push(c)[i],
            ) by {
                if i < cur.len() {
                    assert(cur.push(c)[i] == cur[i]);
                }
            }
        }
    }
}

} // verus!
