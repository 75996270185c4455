//! Splitting text into rows and words, and comparing words without regard to
//! the case of ASCII letters.
use crate::text::chars_of;
use vstd::prelude::*;

verus! {

/// Unicode's `White_Space` property.
pub open spec fn is_space(c: char) -> bool {
    let code = c as u32;
    ||| 0x9 <= code <= 0xd
    ||| code == 0x20
    ||| code == 0x85
    ||| code == 0xa0
    ||| code == 0x1680
    ||| 0x2000 <= code <= 0x200a
    ||| code == 0x2028
    ||| code == 0x2029
    ||| code == 0x202f
    ||| code == 0x205f
    ||| code == 0x3000
}

pub fn space(c: char) -> (r: bool)
    ensures
        r == is_space(c),
{
    let code: u32 = c as u32;
    (0x9 <= code && code <= 0xd) || code == 0x20 || code == 0x85 || code == 0xa0 || code == 0x1680
        || (0x2000 <= code && code <= 0x200a) || code == 0x2028 || code == 0x2029 || code == 0x202f
        || code == 0x205f || code == 0x3000
}

/// No character of `word` is white space, and there is at least one.
pub open spec fn is_word(word: Seq<char>) -> bool {
    word.len() > 0 && forall|i: int| 0 <= i < word.len() ==> !is_space(#[trigger] word[i])
}

/// How many characters stand before the first white space.
pub open spec fn word_length(s: Seq<char>) -> nat
    decreases s.len(),
{
    if s.len() == 0 || is_space(s[0]) {
        0
    } else {
        1 + word_length(s.drop_first())
    }
}

pub proof fn lemma_word_length(s: Seq<char>)
    ensures
        word_length(s) <= s.len(),
        s.len() > 0 && !is_space(s[0]) ==> word_length(s) > 0,
        forall|i: int| 0 <= i < word_length(s) ==> !is_space(#[trigger] s[i]),
        word_length(s) < s.len() ==> is_space(s[word_length(s) as int]),
    decreases s.len(),
{
    if s.len() > 0 && !is_space(s[0]) {
        let rest = s.drop_first();
        lemma_word_length(rest);
        assert forall|i: int| 0 <= i < word_length(s) implies !is_space(#[trigger] s[i]) by {
            if i > 0 {
                assert(!is_space(rest[i - 1]));
            }
        }
        if word_length(s) < s.len() {
            assert(rest[word_length(rest) as int] == s[word_length(s) as int]);
        }
    }
}

/// The words of a text: its maximal runs without white space.
pub open spec fn words(s: Seq<char>) -> Seq<Seq<char>>
    decreases s.len(),
    via words_decreases
{
    if s.len() == 0 {
        Seq::empty()
    } else if is_space(s[0]) {
        words(s.drop_first())
    } else {
        seq![s.take(word_length(s) as int)] + words(s.skip(word_length(s) as int))
    }
}

#[via_fn]
proof fn words_decreases(s: Seq<char>) {
    lemma_word_length(s);
}

/// A word and one blank stand before the words of the rest.
pub proof fn lemma_words_joined(word: Seq<char>, rest: Seq<char>)
    requires
        is_word(word),
    ensures
        words(word + seq![' '] + rest) == seq![word] + words(rest),
{
    let s = word + seq![' '] + rest;
    assert(s[0] == word[0]);
    lemma_word_length(s);
    let n = word_length(s) as int;
    if n < word.len() {
        assert(s[n] == word[n]);
        assert(false);
    }
    if n > word.len() {
        assert(s[word.len() as int] == ' ');
        assert(is_space(' '));
        assert(false);
    }
    assert(s.take(n) =~= word);
    let tail = s.skip(n);
    assert(tail[0] == ' ');
    assert(is_space(tail[0]));
    assert(tail.drop_first() =~= rest);
    assert(words(tail) == words(rest));
}

/// A single word.
pub proof fn lemma_words_single(word: Seq<char>)
    requires
        is_word(word),
    ensures
        words(word) == seq![word],
{
    lemma_word_length(word);
    let n = word_length(word) as int;
    if n < word.len() {
        assert(is_space(word[n]));
        assert(false);
    }
    assert(word.take(n) =~= word);
    assert(word.skip(n) =~= Seq::<char>::empty());
    assert(words(Seq::<char>::empty()) == Seq::<Seq<char>>::empty());
    assert(words(word) =~= seq![word]);
}

/// How many characters stand before the first line feed.
pub open spec fn row_length(s: Seq<char>) -> nat
    decreases s.len(),
{
    if s.len() == 0 || s[0] == '\n' {
        0
    } else {
        1 + row_length(s.drop_first())
    }
}

pub proof fn lemma_row_length(s: Seq<char>)
    ensures
        row_length(s) <= s.len(),
        forall|i: int| 0 <= i < row_length(s) ==> #[trigger] s[i] != '\n',
        row_length(s) < s.len() ==> s[row_length(s) as int] == '\n',
    decreases s.len(),
{
    if s.len() > 0 && s[0] != '\n' {
        let rest = s.drop_first();
        lemma_row_length(rest);
        assert forall|i: int| 0 <= i < row_length(s) implies #[trigger] s[i] != '\n' by {
            if i > 0 {
                assert(rest[i - 1] != '\n');
            }
        }
        if row_length(s) < s.len() {
            assert(rest[row_length(rest) as int] == s[row_length(s) as int]);
        }
    }
}

/// The rows of a text: what stands between its line feeds.
pub open spec fn rows(s: Seq<char>) -> Seq<Seq<char>>
    decreases s.len(),
    via rows_decreases
{
    if row_length(s) >= s.len() {
        seq![s]
    } else {
        seq![s.take(row_length(s) as int)] + rows(s.skip(row_length(s) as int + 1))
    }
}

#[via_fn]
proof fn rows_decreases(s: Seq<char>) {
    lemma_row_length(s);
}

/// A row and its line feed stand before the rows of the rest.
pub proof fn lemma_rows_joined(row: Seq<char>, rest: Seq<char>)
    requires
        forall|i: int| 0 <= i < row.len() ==> #[trigger] row[i] != '\n',
    ensures
        rows(row + seq!['\n'] + rest) == seq![row] + rows(rest),
{
    let s = row + seq!['\n'] + rest;
    lemma_row_length(s);
    let n = row_length(s) as int;
    if n < row.len() {
        assert(s[n] == row[n]);
        assert(false);
    }
    if n > row.len() {
        assert(s[row.len() as int] == '\n');
        assert(false);
    }
    assert(s.take(n) =~= row);
    assert(s.skip(n + 1) =~= rest);
}

/// The text without white space at its ends.
pub open spec fn trimmed(s: Seq<char>) -> Seq<char>
    decreases s.len(),
{
    if s.len() > 0 && is_space(s[0]) {
        trimmed(s.drop_first())
    } else if s.len() > 0 && is_space(s.last()) {
        trimmed(s.drop_last())
    } else {
        s
    }
}

proof fn lemma_trimmed_front(s: Seq<char>, from: int)
    requires
        0 <= from <= s.len(),
        forall|i: int| 0 <= i < from ==> is_space(#[trigger] s[i]),
    ensures
        trimmed(s) == trimmed(s.skip(from)),
    decreases from,
{
    if from > 0 {
        let rest = s.drop_first();
        assert(is_space(s[0]));
        assert forall|i: int| 0 <= i < from - 1 implies is_space(#[trigger] rest[i]) by {
            assert(rest[i] == s[i + 1]);
        }
        lemma_trimmed_front(rest, from - 1);
        assert(rest.skip(from - 1) =~= s.skip(from));
    } else {
        assert(s.skip(0) =~= s);
    }
}

proof fn lemma_trimmed_back(s: Seq<char>, to: int)
    requires
        0 <= to <= s.len(),
        s.len() > 0 ==> !is_space(s[0]),
        forall|i: int| to <= i < s.len() ==> is_space(#[trigger] s[i]),
    ensures
        trimmed(s) == trimmed(s.take(to)),
    decreases s.len(),
{
    if to < s.len() {
        assert(is_space(s[s.len() - 1]));
        let rest = s.drop_last();
        if to > 0 {
            assert(rest[0] == s[0]);
            assert forall|i: int| to <= i < rest.len() implies is_space(#[trigger] rest[i]) by {
                assert(rest[i] == s[i]);
            }
            lemma_trimmed_back(rest, to);
            assert(rest.take(to) =~= s.take(to));
        } else {
            assert(is_space(s[0]));
        }
    } else {
        assert(s.take(to) =~= s);
    }
}

/// Removes white space at the ends.
pub fn trim(s: &Vec<char>) -> (r: Vec<char>)
    ensures
        r@ == trimmed(s@),
{
    let mut from: usize = 0;
    while from < s.len() && space(s[from])
        invariant
            from <= s.len(),
            forall|i: int| 0 <= i < from ==> is_space(#[trigger] s@[i]),
        decreases s.len() - from,
    {
        from = from + 1;
    }
    let mut to: usize = s.len();
    while to > from && space(s[to - 1])
        invariant
            from <= to <= s.len(),
            forall|i: int| to <= i < s.len() ==> is_space(#[trigger] s@[i]),
        decreases to,
    {
        to = to - 1;
    }
    proof {
        lemma_trimmed_front(s@, from as int);
        let rest = s@.skip(from as int);
        if from < s.len() {
            assert(rest[0] == s@[from as int]);
        }
        assert forall|i: int| to - from <= i < rest.len() implies is_space(#[trigger] rest[i]) by {
            assert(rest[i] == s@[i + from]);
        }
        lemma_trimmed_back(rest, to - from);
        assert(rest.take(to - from) =~= s@.subrange(from as int, to as int));
    }
    let r = part(s, from, to);
    proof {
        if r@.len() > 0 {
            assert(r@[0] == s@[from as int]);
            assert(r@.last() == s@[to - 1]);
        }
    }
    r
}

/// `s[from..to]`.
pub fn part(s: &Vec<char>, from: usize, to: usize) -> (r: Vec<char>)
    requires
        from <= to <= s@.len(),
    ensures
        r@ == s@.subrange(from as int, to as int),
{
    let mut out: Vec<char> = Vec::new();
    let mut at: usize = from;
    while at < to
        invariant
            from <= at <= to <= s@.len(),
            out@ == s@.subrange(from as int, at as int),
        decreases to - at,
    {
        out.push(s[at]);
        assert(s@.subrange(from as int, at as int).push(s@[at as int]) =~= s@.subrange(
            from as int,
            at + 1,
        ));
        at = at + 1;
    }
    out
}

/// A list of words by their characters.
pub open spec fn spelled(words: Seq<Vec<char>>) -> Seq<Seq<char>> {
    words.map_values(|w: Vec<char>| w@)
}

pub fn split_words(s: &Vec<char>) -> (r: Vec<Vec<char>>)
    ensures
        spelled(r@) == words(s@),
{
    let mut out: Vec<Vec<char>> = Vec::new();
    let mut at: usize = 0;
    assert(s@.skip(0) =~= s@);
    assert(spelled(out@) =~= Seq::<Seq<char>>::empty());
    assert(Seq::<Seq<char>>::empty() + words(s@) =~= words(s@));
    while at < s.len()
        invariant
            at <= s@.len(),
            spelled(out@) + words(s@.skip(at as int)) == words(s@),
        decreases s.len() - at,
    {
        let ghost rest = s@.skip(at as int);
        if space(s[at]) {
            assert(rest[0] == s@[at as int]);
            assert(rest.drop_first() =~= s@.skip(at + 1));
            at = at + 1;
        } else {
            let start: usize = at;
            proof {
                lemma_word_length(rest);
            }
            while at < s.len() && !space(s[at])
                invariant
                    start <= at <= s@.len(),
                    rest == s@.skip(start as int),
                    forall|i: int| start <= i < at ==> !is_space(#[trigger] s@[i]),
                decreases s.len() - at,
            {
                at = at + 1;
            }
            let word = part(s, start, at);
            proof {
                let n = word_length(rest) as int;
                assert(rest[0] == s@[start as int]);
                if n < at - start {
                    assert(rest[n] == s@[start + n]);
                    assert(false);
                }
                if n > at - start {
                    assert(rest[at - start] == s@[at as int]);
                    assert(false);
                }
                assert(rest.take(n) =~= word@);
                assert(rest.skip(n) =~= s@.skip(at as int));
                assert(words(rest) == seq![word@] + words(s@.skip(at as int)));
            }
            let ghost before = out@;
            out.push(word);
            assert(spelled(out@) =~= spelled(before).push(word@));
            assert(spelled(out@) + words(s@.skip(at as int)) =~= spelled(before) + (seq![word@]
                + words(s@.skip(at as int))));
        }
    }
    assert(s@.skip(at as int) =~= Seq::<char>::empty());
    assert(words(Seq::<char>::empty()) == Seq::<Seq<char>>::empty());
    assert(spelled(out@) + Seq::<Seq<char>>::empty() =~= spelled(out@));
    out
}

pub fn split_rows(s: &Vec<char>) -> (r: Vec<Vec<char>>)
    ensures
        spelled(r@) == rows(s@),
{
    let mut out: Vec<Vec<char>> = Vec::new();
    let mut start: usize = 0;
    let mut at: usize = 0;
    assert(s@.skip(0) =~= s@);
    assert(spelled(out@) =~= Seq::<Seq<char>>::empty());
    assert(Seq::<Seq<char>>::empty() + rows(s@) =~= rows(s@));
    while at < s.len()
        invariant
            start <= at <= s@.len(),
            spelled(out@) + rows(s@.skip(start as int)) == rows(s@),
            forall|i: int| start <= i < at ==> #[trigger] s@[i] != '\n',
        decreases s.len() - at,
    {
        if s[at] == '\n' {
            let ghost rest = s@.skip(start as int);
            let row = part(s, start, at);
            proof {
                lemma_row_length(rest);
                let n = row_length(rest) as int;
                if n < at - start {
                    assert(rest[n] == s@[start + n]);
                    assert(false);
                }
                if n > at - start {
                    assert(rest[at - start] == s@[at as int]);
                    assert(false);
                }
                assert(rest.take(n) =~= row@);
                assert(rest.skip(n + 1) =~= s@.skip(at + 1));
            }
            let ghost before = out@;
            out.push(row);
            assert(spelled(out@) =~= spelled(before).push(row@));
            at = at + 1;
            start = at;
            assert(spelled(out@) + rows(s@.skip(start as int)) =~= spelled(before) + (seq![row@]
                + rows(s@.skip(start as int))));
        } else {
            at = at + 1;
        }
    }
    let row = part(s, start, at);
    proof {
        let rest = s@.skip(start as int);
        assert(rest =~= row@);
        lemma_row_length(rest);
        let n = row_length(rest) as int;
        if n < rest.len() {
            assert(rest[n] == s@[start + n]);
            assert(false);
        }
        assert(rows(rest) == seq![row@]);
    }
    let ghost before = out@;
    out.push(row);
    assert(spelled(out@) =~= spelled(before) + seq![row@]);
    out
}

/// The code of `c`, with lower-case ASCII letters taken for upper-case ones.
pub open spec fn folded(c: char) -> int {
    let code = c as u32;
    if 97 <= code <= 122 {
        code - 32
    } else {
        code as int
    }
}

fn fold(c: char) -> (r: u32)
    ensures
        r == folded(c),
{
    let code: u32 = c as u32;
    if 97 <= code && code <= 122 {
        code - 32
    } else {
        code
    }
}

/// The words differ in the case of ASCII letters at most.
pub open spec fn alike(a: Seq<char>, b: Seq<char>) -> bool {
    a.len() == b.len() && forall|i: int| 0 <= i < a.len() ==> folded(#[trigger] a[i]) == folded(b[i])
}

/// Whether two texts differ in the case of ASCII letters at most.
pub fn texts_alike(a: &str, b: &str) -> (r: bool)
    ensures
        r == alike(a@, b@),
{
    is_alike(&chars_of(a), b)
}

pub fn is_alike(word: &Vec<char>, literal: &str) -> (r: bool)
    ensures
        r == alike(word@, literal@),
{
    let other = chars_of(literal);
    if word.len() != other.len() {
        return false;
    }
    let mut at: usize = 0;
    while at < word.len()
        invariant
            at <= word.len() == other.len(),
            other@ == literal@,
            forall|i: int| 0 <= i < at ==> folded(#[trigger] word@[i]) == folded(other@[i]),
        decreases word.len() - at,
    {
        if fold(word[at]) != fold(other[at]) {
            assert(folded(word@[at as int]) != folded(other@[at as int]));
            return false;
        }
        at = at + 1;
    }
    true
}

/// Two words are alike where they agree letter by letter, but that an ASCII letter may
/// stand in either case.
pub proof fn words_are_alike_but_for_their_case(a: Seq<char>, b: Seq<char>)
    ensures
        alike(a, b) <==> a.len() == b.len() && forall|i: int|
            0 <= i < a.len() ==> {
                let left = (#[trigger] a[i]) as u32;
                let right = b[i] as u32;
                ||| left == right
                ||| 65 <= left <= 90 && right == left + 32
                ||| 65 <= right <= 90 && left == right + 32
            },
        alike(a, a),
        alike(a, b) ==> alike(b, a),
{
    if alike(a, b) {
        assert forall|i: int| 0 <= i < a.len() implies {
            let left = (#[trigger] a[i]) as u32;
            let right = b[i] as u32;
            ||| left == right
            ||| 65 <= left <= 90 && right == left + 32
            ||| 65 <= right <= 90 && left == right + 32
        } by {
            assert(folded(a[i]) == folded(b[i]));
        }
        assert forall|i: int| 0 <= i < b.len() implies folded(#[trigger] b[i]) == folded(a[i]) by {
            assert(folded(a[i]) == folded(b[i]));
        }
    }
    if a.len() == b.len() && forall|i: int|
        0 <= i < a.len() ==> {
            let left = (#[trigger] a[i]) as u32;
            let right = b[i] as u32;
            ||| left == right
            ||| 65 <= left <= 90 && right == left + 32
            ||| 65 <= right <= 90 && left == right + 32
        } {
        assert forall|i: int| 0 <= i < a.len() implies folded(#[trigger] a[i]) == folded(b[i]) by {
            let left = a[i] as u32;
        }
    }
}

/// A trimmed text begins and ends with something to read, and what was taken from its
/// ends is white space.
pub proof fn a_trimmed_text_has_no_space_at_its_ends(s: Seq<char>) -> (n: (int, int))
    ensures
        trimmed(s).len() > 0 ==> !is_space(trimmed(s)[0]) && !is_space(trimmed(s).last()),
        0 <= n.0 <= n.1 <= s.len(),
        trimmed(s) == s.subrange(n.0, n.1),
        forall|i: int| 0 <= i < n.0 ==> is_space(#[trigger] s[i]),
        forall|i: int| n.1 <= i < s.len() ==> is_space(#[trigger] s[i]),
    decreases s.len(),
{
    if s.len() > 0 && is_space(s[0]) {
        let rest = s.drop_first();
        let (a, b) = a_trimmed_text_has_no_space_at_its_ends(rest);
        assert(rest.subrange(a, b) =~= s.subrange(a + 1, b + 1));
        assert forall|i: int| 0 <= i < a + 1 implies is_space(#[trigger] s[i]) by {
            if i > 0 {
                assert(rest[i - 1] == s[i]);
            }
        }
        assert forall|i: int| b + 1 <= i < s.len() implies is_space(#[trigger] s[i]) by {
            assert(rest[i - 1] == s[i]);
        }
        (a + 1, b + 1)
    } else if s.len() > 0 && is_space(s.last()) {
        let rest = s.drop_last();
        let (a, b) = a_trimmed_text_has_no_space_at_its_ends(rest);
        assert(rest.subrange(a, b) =~= s.subrange(a, b));
        assert forall|i: int| 0 <= i < a implies is_space(#[trigger] s[i]) by {
            assert(rest[i] == s[i]);
        }
        assert forall|i: int| b <= i < s.len() implies is_space(#[trigger] s[i]) by {
            if i < rest.len() {
                assert(rest[i] == s[i]);
            }
        }
        (a, b)
    } else {
        assert(s.subrange(0, s.len() as int) =~= s);
        (0, s.len() as int)
    }
}

/// A blank separates words, and a line feed ends a row; letters, digits and points do
/// neither.
pub proof fn blanks_and_tabs_are_space(c: char)
    ensures
        is_space(' ') && is_space('\t') && is_space('\n') && is_space('\r'),
        33 <= c as u32 <= 126 ==> !is_space(c),
{
}

} // verus!
