//! Small verified operations on text, stated over sequences of characters.

use vstd::prelude::*;
use vstd::string::*;

verus! {

/// Whether two strings hold the same characters.
pub fn str_eq(a: &str, b: &str) -> (r: bool)
    ensures
        r == (a@ == b@),
{
    let x = String::from_str(a);
    let y = String::from_str(b);
    x == y
}

/// The decimal digit for a value below ten.
pub open spec fn digit_char(d: nat) -> char {
    if d == 0 {
        '0'
    } else if d == 1 {
        '1'
    } else if d == 2 {
        '2'
    } else if d == 3 {
        '3'
    } else if d == 4 {
        '4'
    } else if d == 5 {
        '5'
    } else if d == 6 {
        '6'
    } else if d == 7 {
        '7'
    } else if d == 8 {
        '8'
    } else {
        '9'
    }
}

/// The decimal numeral of a natural number, without leading zeros.
pub open spec fn decimal_digits(n: nat) -> Seq<char>
    decreases n,
{
    if n < 10 {
        seq![digit_char(n)]
    } else {
        decimal_digits(n / 10).push(digit_char(n % 10))
    }
}

/// Writes a number as its decimal numeral.
pub fn decimal(n: u64) -> (s: String)
    ensures
        s@ == decimal_digits(n as nat),
    decreases n,
{
    let digits = "0123456789";
    proof {
        reveal_strlit("0123456789");
    }
    if n < 10 {
        let d = n as usize;
        let one = digits.substring_char(d, d + 1);
        assert(one@ =~= seq![digit_char(n as nat)]);
        String::from_str(one)
    } else {
        let head = decimal(n / 10);
        let d = (n % 10) as usize;
        let one = digits.substring_char(d, d + 1);
        assert(one@ =~= seq![digit_char((n % 10) as nat)]);
        let r = head.concat(one);
        assert(r@ =~= decimal_digits((n / 10) as nat).push(digit_char((n % 10) as nat)));
        r
    }
}

/// The characters of a string, one by one.
pub fn chars_of(s: &str) -> (v: Vec<char>)
    ensures
        v@ == s@,
{
    let mut v: Vec<char> = Vec::new();
    for c in it: s.chars()
        invariant
            v@ == it.seq().take(it.index() as int),
            it.seq() == s@,
    {
        v.push(c);
        assert(it.seq().take(it.index() + 1) =~= it.seq().take(it.index() as int).push(c));
    }
    assert(s@.take(s@.len() as int) =~= s@);
    v
}

/// Strings as texts.
pub open spec fn texts(strings: Seq<String>) -> Seq<Seq<char>> {
    strings.map_values(|s: String| s@)
}

/// The characters of an optional string.
pub open spec fn text_of(s: Option<String>) -> Option<Seq<char>> {
    match s {
        Some(t) => Some(t@),
        None => None,
    }
}

/// The characters of an optional string slice.
pub open spec fn optional_text(text: Option<&str>) -> Option<Seq<char>> {
    match text {
        Some(t) => Some(t@),
        None => None,
    }
}

/// The words of an optional list of words.
pub open spec fn optional_texts(words: Option<&Vec<String>>) -> Option<Seq<Seq<char>>> {
    match words {
        Some(w) => Some(texts(w@)),
        None => None,
    }
}

/// Copies an optional string.
pub fn clone_optional(s: &Option<String>) -> (r: Option<String>)
    ensures
        r == *s,
{
    match s {
        Some(t) => Some(t.clone()),
        None => None,
    }
}

/// The pieces of `s` that are closed by a separator, and the piece after
/// the last separator.
pub open spec fn split_scan(s: Seq<char>, sep: char) -> (Seq<Seq<char>>, Seq<char>)
    decreases s.len(),
{
    if s.len() == 0 {
        (Seq::empty(), Seq::empty())
    } else {
        let (done, piece) = split_scan(s.drop_last(), sep);
        if s.last() == sep {
            (done.push(piece), Seq::empty())
        } else {
            (done, piece.push(s.last()))
        }
    }
}

/// The pieces that the separators cut `s` into, empty ones included: one
/// more than there are separators.
pub open spec fn split_seq(s: Seq<char>, sep: char) -> Seq<Seq<char>> {
    split_scan(s, sep).0.push(split_scan(s, sep).1)
}

/// Some pieces with a separator between neighbours.
pub open spec fn joined(pieces: Seq<Seq<char>>, sep: char) -> Seq<char>
    decreases pieces.len(),
{
    if pieces.len() == 0 {
        Seq::empty()
    } else if pieces.len() == 1 {
        pieces[0]
    } else {
        joined(pieces.drop_last(), sep) + seq![sep] + pieces.last()
    }
}

/// What a text is cut into holds no separator, and makes up the text
/// again once the separators are put back between the pieces.
pub proof fn lemma_split_joins_back(s: Seq<char>, sep: char)
    ensures
        split_seq(s, sep).len() >= 1,
        joined(split_seq(s, sep), sep) == s,
        forall|i: int|
            0 <= i < split_seq(s, sep).len() ==> !(#[trigger] split_seq(s, sep)[i]).contains(sep),
    decreases s.len(),
{
    let pieces = split_seq(s, sep);
    if s.len() == 0 {
        assert(pieces =~= seq![Seq::<char>::empty()]);
        assert(joined(pieces, sep) =~= s);
    } else {
        let head = s.drop_last();
        let c = s.last();
        lemma_split_joins_back(head, sep);
        let (done, piece) = split_scan(head, sep);
        let before = split_seq(head, sep);
        assert(before == done.push(piece));
        assert(s =~= head.push(c));
        if c == sep {
            assert(pieces == before.push(Seq::<char>::empty()));
            assert(pieces.drop_last() =~= before);
            assert(joined(pieces, sep) =~= joined(before, sep) + seq![sep]);
            assert forall|i: int| 0 <= i < pieces.len() implies !(#[trigger] pieces[i]).contains(
                sep,
            ) by {
                if i < before.len() {
                    assert(pieces[i] == before[i]);
                }
            }
        } else {
            let last = piece.push(c);
            assert(pieces == done.push(last));
            assert(pieces.drop_last() =~= done);
            assert(before.drop_last() =~= done);
            assert(before.last() == piece);
            if done.len() == 0 {
                assert(joined(before, sep) == piece);
                assert(joined(pieces, sep) == last);
            } else {
                assert(joined(before, sep) == joined(done, sep) + seq![sep] + piece);
                assert(joined(pieces, sep) =~= (joined(done, sep) + seq![sep] + piece).push(c));
            }
            assert forall|i: int| 0 <= i < pieces.len() implies !(#[trigger] pieces[i]).contains(
                sep,
            ) by {
                if i < done.len() {
                    assert(pieces[i] == before[i]);
                } else {
                    assert(!before[before.len() - 1].contains(sep));
                    if last.contains(sep) {
                        let k = choose|k: int| 0 <= k < last.len() && last[k] == sep;
                        assert(piece[k] == sep);
                    }
                }
            }
        }
    }
}

/// Cuts a string at every occurrence of a separator.
pub fn split_on(s: &str, sep: char) -> (r: Vec<String>)
    ensures
        texts(r@) == split_seq(s@, sep),
{
    let chars = chars_of(s);
    let mut r: Vec<String> = Vec::new();
    let mut start: usize = 0;
    let mut i: usize = 0;
    assert(s@.take(0) =~= Seq::<char>::empty());
    assert(texts(r@) =~= Seq::empty());
    assert(s@.subrange(0, 0) =~= Seq::<char>::empty());
    while i < chars.len()
        invariant
            start <= i <= chars.len(),
            chars@ == s@,
            split_scan(s@.take(i as int), sep) == (texts(r@), s@.subrange(start as int, i as int)),
        decreases chars.len() - i,
    {
        let ghost before = texts(r@);
        assert(s@.take(i + 1).drop_last() =~= s@.take(i as int));
        assert(s@.take(i + 1).last() == chars@[i as int]);
        if chars[i] == sep {
            let piece = String::from_str(s.substring_char(start, i));
            r.push(piece);
            assert(texts(r@) =~= before.push(s@.subrange(start as int, i as int)));
            start = i + 1;
            assert(s@.subrange(start as int, start as int) =~= Seq::<char>::empty());
        } else {
            assert(s@.subrange(start as int, i + 1) =~= s@.subrange(start as int, i as int).push(
                chars@[i as int],
            ));
        }
        i += 1;
    }
    let ghost before = texts(r@);
    assert(s@.take(s@.len() as int) =~= s@);
    let piece = String::from_str(s.substring_char(start, i));
    r.push(piece);
    assert(texts(r@) =~= before.push(s@.subrange(start as int, i as int)));
    r
}

/// `s` without the occurrences of `c` that it begins with.
pub open spec fn trim_start_seq(s: Seq<char>, c: char) -> Seq<char>
    decreases s.len(),
{
    if s.len() > 0 && s[0] == c {
        trim_start_seq(s.drop_first(), c)
    } else {
        s
    }
}

/// `s` without the occurrences of `c` that it ends with.
pub open spec fn trim_end_seq(s: Seq<char>, c: char) -> Seq<char>
    decreases s.len(),
{
    if s.len() > 0 && s.last() == c {
        trim_end_seq(s.drop_last(), c)
    } else {
        s
    }
}

/// `s` without the occurrences of `c` at either end.
pub open spec fn trimmed(s: Seq<char>, c: char) -> Seq<char> {
    trim_end_seq(trim_start_seq(s, c), c)
}

proof fn lemma_trim_start(s: Seq<char>, c: char, lo: int)
    requires
        0 <= lo <= s.len(),
        forall|j: int| 0 <= j < lo ==> s[j] == c,
        lo < s.len() ==> s[lo] != c,
    ensures
        trim_start_seq(s, c) == s.skip(lo),
    decreases lo,
{
    if lo == 0 {
        assert(s.skip(0) =~= s);
    } else {
        lemma_trim_start(s.drop_first(), c, lo - 1);
        assert(s.drop_first().skip(lo - 1) =~= s.skip(lo));
    }
}

proof fn lemma_trim_end(s: Seq<char>, c: char, hi: int)
    requires
        0 <= hi <= s.len(),
        forall|j: int| hi <= j < s.len() ==> s[j] == c,
        hi > 0 ==> s[hi - 1] != c,
    ensures
        trim_end_seq(s, c) == s.take(hi),
    decreases s.len() - hi,
{
    if hi == s.len() {
        assert(s.take(hi) =~= s);
    } else {
        lemma_trim_end(s.drop_last(), c, hi);
        assert(s.drop_last().take(hi) =~= s.take(hi));
    }
}

/// What is left after trimming neither begins nor ends with the
/// character, and is a stretch of the text.
pub proof fn lemma_trimmed_ends(s: Seq<char>, c: char)
    ensures
        trimmed(s, c).len() > 0 ==> trimmed(s, c)[0] != c && trimmed(s, c).last() != c,
        exists|lo: int, hi: int| 0 <= lo <= hi <= s.len() && trimmed(s, c) == s.subrange(lo, hi),
{
    lemma_trim_start_shape(s, c);
    let rest = trim_start_seq(s, c);
    let lo = choose|lo: int| 0 <= lo <= s.len() && rest == s.skip(lo);
    lemma_trim_end_shape(rest, c);
    let hi = choose|hi: int| 0 <= hi <= rest.len() && trim_end_seq(rest, c) == rest.take(hi);
    assert(rest.take(hi) =~= s.subrange(lo, lo + hi));
    if trimmed(s, c).len() > 0 {
        assert(trimmed(s, c)[0] == rest[0]);
    }
}

proof fn lemma_trim_start_shape(s: Seq<char>, c: char)
    ensures
        exists|lo: int| 0 <= lo <= s.len() && trim_start_seq(s, c) == s.skip(lo),
        trim_start_seq(s, c).len() > 0 ==> trim_start_seq(s, c)[0] != c,
    decreases s.len(),
{
    if s.len() > 0 && s[0] == c {
        lemma_trim_start_shape(s.drop_first(), c);
        let lo = choose|lo: int|
            0 <= lo <= s.drop_first().len() && trim_start_seq(s.drop_first(), c)
                == s.drop_first().skip(lo);
        assert(s.drop_first().skip(lo) =~= s.skip(lo + 1));
    } else {
        assert(s.skip(0) =~= s);
    }
}

proof fn lemma_trim_end_shape(s: Seq<char>, c: char)
    ensures
        exists|hi: int| 0 <= hi <= s.len() && trim_end_seq(s, c) == s.take(hi),
        trim_end_seq(s, c).len() > 0 ==> trim_end_seq(s, c).last() != c,
        trim_end_seq(s, c).len() > 0 ==> trim_end_seq(s, c)[0] == s[0],
    decreases s.len(),
{
    if s.len() > 0 && s.last() == c {
        lemma_trim_end_shape(s.drop_last(), c);
        let hi = choose|hi: int|
            0 <= hi <= s.drop_last().len() && trim_end_seq(s.drop_last(), c) == s.drop_last().take(
                hi,
            );
        assert(s.drop_last().take(hi) =~= s.take(hi));
    } else {
        assert(s.take(s.len() as int) =~= s);
    }
}

/// Strips every leading and trailing occurrence of a character.
pub fn trim_char(s: &str, c: char) -> (r: String)
    ensures
        r@ == trimmed(s@, c),
{
    let chars = chars_of(s);
    let mut lo: usize = 0;
    while lo < chars.len() && chars[lo] == c
        invariant
            lo <= chars.len(),
            forall|j: int| 0 <= j < lo ==> chars@[j] == c,
        decreases chars.len() - lo,
    {
        lo += 1;
    }
    let mut hi: usize = chars.len();
    while hi > lo && chars[hi - 1] == c
        invariant
            lo <= hi <= chars.len(),
            forall|j: int| hi <= j < chars@.len() ==> chars@[j] == c,
        decreases hi,
    {
        hi -= 1;
    }
    proof {
        lemma_trim_start(s@, c, lo as int);
        let rest = s@.skip(lo as int);
        assert forall|j: int| hi - lo <= j < rest.len() implies rest[j] == c by {
            assert(rest[j] == s@[j + lo]);
        }
        if hi > lo {
            assert(rest[hi - lo - 1] == s@[hi - 1]);
        }
        lemma_trim_end(rest, c, hi - lo);
        assert(rest.take(hi - lo) =~= s@.subrange(lo as int, hi as int));
    }
    String::from_str(s.substring_char(lo, hi))
}

/// Strips every trailing occurrence of a character.
pub fn trim_end_char(s: &str, c: char) -> (r: String)
    ensures
        r@ == trim_end_seq(s@, c),
{
    let chars = chars_of(s);
    let mut hi: usize = chars.len();
    while hi > 0 && chars[hi - 1] == c
        invariant
            hi <= chars.len(),
            forall|j: int| hi <= j < chars@.len() ==> chars@[j] == c,
        decreases hi,
    {
        hi -= 1;
    }
    proof {
        lemma_trim_end(s@, c, hi as int);
        assert(s@.take(hi as int) =~= s@.subrange(0, hi as int));
    }
    String::from_str(s.substring_char(0, hi))
}

/// The end of `s` after the last occurrence of `c`; all of `s` if `c` does
/// not occur in it.
pub open spec fn after_last_seq(s: Seq<char>, c: char) -> Seq<char>
    decreases s.len(),
{
    if s.len() == 0 {
        s
    } else if s.last() == c {
        Seq::empty()
    } else {
        after_last_seq(s.drop_last(), c).push(s.last())
    }
}

proof fn lemma_after_last(s: Seq<char>, c: char, from: int)
    requires
        0 <= from <= s.len(),
        forall|j: int| from <= j < s.len() ==> s[j] != c,
        from > 0 ==> s[from - 1] == c,
    ensures
        after_last_seq(s, c) == s.skip(from),
    decreases s.len() - from,
{
    if from == s.len() {
        assert(s.skip(from) =~= Seq::<char>::empty());
    } else {
        lemma_after_last(s.drop_last(), c, from);
        assert(s.drop_last().skip(from).push(s.last()) =~= s.skip(from));
    }
}

/// What follows the last occurrence of `c` is all of `s` exactly where
/// `c` does not occur in `s`.
pub proof fn lemma_after_last_whole(s: Seq<char>, c: char)
    ensures
        after_last_seq(s, c).len() <= s.len(),
        after_last_seq(s, c).len() == s.len() <==> !s.contains(c),
        !s.contains(c) ==> after_last_seq(s, c) == s,
    decreases s.len(),
{
    if s.len() > 0 {
        lemma_after_last_whole(s.drop_last(), c);
        if s.last() == c {
            assert(s[s.len() - 1] == c);
        } else {
            if s.contains(c) {
                let i = choose|i: int| 0 <= i < s.len() && s[i] == c;
                assert(s.drop_last()[i] == c);
            }
            if s.drop_last().contains(c) {
                let i = choose|i: int| 0 <= i < s.drop_last().len() && s.drop_last()[i] == c;
                assert(s[i] == c);
            }
            if !s.contains(c) {
                assert(after_last_seq(s.drop_last(), c).push(s.last()) =~= s);
            }
        }
    }
}

/// Takes what follows the last occurrence of a character.
pub fn after_last(s: &str, c: char) -> (r: String)
    ensures
        r@ == after_last_seq(s@, c),
{
    let chars = chars_of(s);
    let mut from: usize = chars.len();
    while from > 0 && chars[from - 1] != c
        invariant
            from <= chars.len(),
            forall|j: int| from <= j < chars@.len() ==> chars@[j] != c,
        decreases from,
    {
        from -= 1;
    }
    proof {
        lemma_after_last(s@, c, from as int);
        assert(s@.skip(from as int) =~= s@.subrange(from as int, s@.len() as int));
    }
    String::from_str(s.substring_char(from, chars.len()))
}

/// Whether `needle` occurs in `s` at position `at`.
pub open spec fn occurs_at(s: Seq<char>, needle: Seq<char>, at: int) -> bool {
    0 <= at && at + needle.len() <= s.len() && s.subrange(at, at + needle.len()) == needle
}

/// Whether `needle` occurs somewhere in `s`.
pub open spec fn occurs_in(s: Seq<char>, needle: Seq<char>) -> bool {
    exists|at: int| occurs_at(s, needle, at)
}

fn matches_at(s: &Vec<char>, needle: &Vec<char>, at: usize) -> (b: bool)
    requires
        at + needle@.len() <= s@.len(),
    ensures
        b == occurs_at(s@, needle@, at as int),
{
    let mut k: usize = 0;
    while k < needle.len()
        invariant
            k <= needle.len(),
            at + needle.len() <= s.len(),
            forall|j: int| 0 <= j < k ==> s@[at + j] == needle@[j],
        decreases needle.len() - k,
    {
        if s[at + k] != needle[k] {
            assert(s@.subrange(at as int, at + needle@.len())[k as int] != needle@[k as int]);
            return false;
        }
        k += 1;
    }
    assert(s@.subrange(at as int, at + needle@.len()) =~= needle@);
    true
}

/// Tells whether one string occurs in another.
pub fn contains_text(s: &str, needle: &str) -> (b: bool)
    ensures
        b == occurs_in(s@, needle@),
{
    let chars = chars_of(s);
    let wanted = chars_of(needle);
    if wanted.len() > chars.len() {
        return false;
    }
    let last: usize = chars.len() - wanted.len();
    let mut at: usize = 0;
    loop
        invariant
            at <= last,
            last == chars@.len() - wanted@.len(),
            chars@ == s@,
            wanted@ == needle@,
            forall|j: int| 0 <= j < at ==> !occurs_at(s@, needle@, j),
        decreases last - at,
    {
        if matches_at(&chars, &wanted, at) {
            return true;
        }
        if at == last {
            return false;
        }
        at += 1;
    }
}

/// Whether a character is white space, as Unicode has it.
pub uninterp spec fn whitespace(c: char) -> bool;

/// `char::is_whitespace`: whether the character has the Unicode property
/// White_Space; a function of the character.
#[verifier::external_body]
fn is_whitespace(c: char) -> (b: bool)
    ensures
        b == whitespace(c),
{
    c.is_whitespace()
}

/// The words of `s` that white space has closed, and the word that its
/// end is in.
pub open spec fn words_scan(s: Seq<char>) -> (Seq<Seq<char>>, Seq<char>)
    decreases s.len(),
{
    if s.len() == 0 {
        (Seq::empty(), Seq::empty())
    } else {
        let (done, word) = words_scan(s.drop_last());
        if whitespace(s.last()) {
            if word.len() > 0 {
                (done.push(word), Seq::empty())
            } else {
                (done, Seq::empty())
            }
        } else {
            (done, word.push(s.last()))
        }
    }
}

/// The words of `s`: its longest stretches without white space.
pub open spec fn words_of(s: Seq<char>) -> Seq<Seq<char>> {
    if words_scan(s).1.len() > 0 {
        words_scan(s).0.push(words_scan(s).1)
    } else {
        words_scan(s).0
    }
}

/// Whether a text holds no white space.
pub open spec fn spaceless(w: Seq<char>) -> bool {
    forall|k: int| 0 <= k < w.len() ==> !whitespace(#[trigger] w[k])
}

/// No word is empty, and no word holds white space.
pub proof fn lemma_words_are_words(s: Seq<char>)
    ensures
        forall|i: int|
            0 <= i < words_of(s).len() ==> (#[trigger] words_of(s)[i]).len() > 0 && spaceless(
                words_of(s)[i],
            ),
{
    lemma_words_scan(s);
    let (done, word) = words_scan(s);
    assert forall|i: int| 0 <= i < words_of(s).len() implies (#[trigger] words_of(s)[i]).len() > 0
        && spaceless(words_of(s)[i]) by {
        if i < done.len() {
            assert(words_of(s)[i] == done[i]);
        } else {
            assert(words_of(s)[i] == word);
        }
    }
}

proof fn lemma_words_scan(s: Seq<char>)
    ensures
        forall|i: int|
            0 <= i < words_scan(s).0.len() ==> (#[trigger] words_scan(s).0[i]).len() > 0
                && spaceless(words_scan(s).0[i]),
        spaceless(words_scan(s).1),
    decreases s.len(),
{
    if s.len() > 0 {
        lemma_words_scan(s.drop_last());
        let (done, word) = words_scan(s.drop_last());
        let (next, current) = words_scan(s);
        if whitespace(s.last()) {
            assert forall|i: int| 0 <= i < next.len() implies (#[trigger] next[i]).len() > 0
                && spaceless(next[i]) by {
                if i < done.len() {
                    assert(next[i] == done[i]);
                } else {
                    assert(next[i] == word);
                }
            }
        } else {
            assert(next == done);
            assert forall|k: int| 0 <= k < current.len() implies !whitespace(
                #[trigger] current[k],
            ) by {
                if k < word.len() {
                    assert(current[k] == word[k]);
                }
            }
        }
    }
}

/// Cuts a string into its words: what stands between white space.
pub fn words(s: &str) -> (r: Vec<String>)
    ensures
        texts(r@) == words_of(s@),
{
    let chars = chars_of(s);
    let mut r: Vec<String> = Vec::new();
    let mut start: usize = 0;
    let mut i: usize = 0;
    assert(s@.take(0) =~= Seq::<char>::empty());
    assert(texts(r@) =~= Seq::empty());
    assert(s@.subrange(0, 0) =~= Seq::<char>::empty());
    while i < chars.len()
        invariant
            start <= i <= chars.len(),
            chars@ == s@,
            words_scan(s@.take(i as int)) == (texts(r@), s@.subrange(start as int, i as int)),
        decreases chars.len() - i,
    {
        let ghost before = texts(r@);
        assert(s@.take(i + 1).drop_last() =~= s@.take(i as int));
        assert(s@.take(i + 1).last() == chars@[i as int]);
        if is_whitespace(chars[i]) {
            if i > start {
                let word = String::from_str(s.substring_char(start, i));
                r.push(word);
                assert(texts(r@) =~= before.push(s@.subrange(start as int, i as int)));
            }
            start = i + 1;
            assert(s@.subrange(start as int, start as int) =~= Seq::<char>::empty());
        } else {
            assert(s@.subrange(start as int, i + 1) =~= s@.subrange(start as int, i as int).push(
                chars@[i as int],
            ));
        }
        i += 1;
    }
    assert(s@.take(s@.len() as int) =~= s@);
    if i > start {
        let ghost before = texts(r@);
        let word = String::from_str(s.substring_char(start, i));
        r.push(word);
        assert(texts(r@) =~= before.push(s@.subrange(start as int, i as int)));
    }
    r
}

/// The value of a decimal digit; `None` for any other character.
pub open spec fn digit_value(c: char) -> Option<nat> {
    if '0' <= c && c <= '9' {
        Some((c as u32 - '0' as u32) as nat)
    } else {
        None
    }
}

/// The number that a row of decimal digits stands for; `None` for the
/// empty text and for a text that holds anything but digits.
pub open spec fn digits_value(s: Seq<char>) -> Option<nat>
    decreases s.len(),
{
    if s.len() == 0 {
        None
    } else if s.len() == 1 {
        digit_value(s[0])
    } else {
        match (digits_value(s.drop_last()), digit_value(s.last())) {
            (Some(head), Some(d)) => Some(10 * head + d),
            _ => None,
        }
    }
}

/// The number that a numeral stands for: decimal digits, with or without
/// a plus sign before them.
pub open spec fn unsigned_value(s: Seq<char>) -> Option<nat> {
    if s.len() > 0 && s[0] == '+' {
        digits_value(s.drop_first())
    } else {
        digits_value(s)
    }
}

/// The value of a numeral where it is at most `max`.
pub open spec fn bounded_value(s: Seq<char>, max: nat) -> Option<nat> {
    match unsigned_value(s) {
        Some(n) => if n <= max {
            Some(n)
        } else {
            None
        },
        None => None,
    }
}

/// The digits before the end of a numeral are a numeral too, of no
/// greater value.
proof fn lemma_digits_prefix(s: Seq<char>, n: int)
    requires
        1 <= n <= s.len(),
        digits_value(s) is Some,
    ensures
        digits_value(s.take(n)) is Some,
        digits_value(s.take(n))->0 <= digits_value(s)->0,
    decreases s.len(),
{
    if n == s.len() {
        assert(s.take(n) =~= s);
    } else {
        lemma_digits_prefix(s.drop_last(), n);
        assert(s.drop_last().take(n) =~= s.take(n));
    }
}

/// Reads an unsigned decimal numeral of at most 64 bits.
pub fn parse_u64(s: &str) -> (r: Option<u64>)
    ensures
        match r {
            Some(n) => bounded_value(s@, u64::MAX as nat) == Some(n as nat),
            None => bounded_value(s@, u64::MAX as nat) is None,
        },
{
    let chars = chars_of(s);
    let first: usize = if chars.len() > 0 && chars[0] == '+' {
        1
    } else {
        0
    };
    let ghost digits = s@.skip(first as int);
    assert(first == 1 ==> digits =~= s@.drop_first());
    assert(first == 0 ==> digits =~= s@);
    assert(unsigned_value(s@) == digits_value(digits));
    if first == chars.len() {
        return None;
    }
    let mut value: u64 = 0;
    let mut i: usize = first;
    while i < chars.len()
        invariant
            first <= i <= chars.len(),
            first < chars.len(),
            chars@ == s@,
            digits == s@.skip(first as int),
            unsigned_value(s@) == digits_value(digits),
            i == first ==> value == 0,
            i > first ==> digits_value(digits.take(i - first)) == Some(value as nat),
        decreases chars.len() - i,
    {
        let c = chars[i];
        let ghost upto = digits.take(i + 1 - first);
        assert(upto.last() == c);
        assert(upto.drop_last() =~= digits.take(i - first));
        if !('0' <= c && c <= '9') {
            proof {
                assert(digit_value(c) is None);
                assert(digits_value(upto) is None);
                if digits_value(digits) is Some {
                    lemma_digits_prefix(digits, i + 1 - first);
                }
            }
            return None;
        }
        let d: u64 = (c as u32 - '0' as u32) as u64;
        assert(digit_value(c) == Some(d as nat));
        assert(digits_value(upto) == Some((10 * value + d) as nat));
        if value > (u64::MAX - d) / 10 {
            proof {
                assert(10 * value + d > u64::MAX);
                if digits_value(digits) is Some {
                    lemma_digits_prefix(digits, i + 1 - first);
                }
            }
            return None;
        }
        value = 10 * value + d;
        i += 1;
    }
    assert(digits.take(chars.len() - first) =~= digits);
    Some(value)
}

/// Reads an unsigned decimal numeral of at most 32 bits.
pub fn parse_u32(s: &str) -> (r: Option<u32>)
    ensures
        match r {
            Some(n) => bounded_value(s@, u32::MAX as nat) == Some(n as nat),
            None => bounded_value(s@, u32::MAX as nat) is None,
        },
{
    match parse_u64(s) {
        Some(n) => if n <= 0xffff_ffff {
            Some(n as u32)
        } else {
            None
        },
        None => None,
    }
}

/// `s` with every occurrence of `needle` replaced by `with`, the
/// occurrences taken from the left and not overlapping. An empty needle
/// occurs nowhere.
pub open spec fn replaced(s: Seq<char>, needle: Seq<char>, with: Seq<char>) -> Seq<char>
    decreases s.len(),
{
    if needle.len() == 0 || s.len() < needle.len() {
        s
    } else if s.take(needle.len() as int) == needle {
        with + replaced(s.skip(needle.len() as int), needle, with)
    } else {
        seq![s[0]] + replaced(s.skip(1), needle, with)
    }
}

/// Replaces every occurrence of one string in another.
pub fn replace_all(s: &str, needle: &str, with: &str) -> (r: String)
    ensures
        r@ == replaced(s@, needle@, with@),
{
    let chars = chars_of(s);
    let wanted = chars_of(needle);
    let n = wanted.len();
    if n == 0 || chars.len() < n {
        return String::from_str(s);
    }
    let mut out = String::new();
    let mut start: usize = 0;
    let mut i: usize = 0;
    assert(s@.skip(0) =~= s@);
    assert(out@ + s@.subrange(0, 0) + replaced(s@, needle@, with@) =~= replaced(
        s@,
        needle@,
        with@,
    ));
    while i <= chars.len() - n
        invariant
            0 < n <= chars.len(),
            n == wanted@.len(),
            start <= i <= chars.len(),
            chars@ == s@,
            wanted@ == needle@,
            replaced(s@, needle@, with@) == out@ + s@.subrange(start as int, i as int) + replaced(
                s@.skip(i as int),
                needle@,
                with@,
            ),
        decreases chars.len() - i,
    {
        let ghost rest = s@.skip(i as int);
        let ghost before = out@;
        assert(rest.take(n as int) =~= s@.subrange(i as int, i + n));
        if matches_at(&chars, &wanted, i) {
            let ghost literal = s@.subrange(start as int, i as int);
            out.append(s.substring_char(start, i));
            out.append(with);
            assert(rest.take(n as int) == needle@);
            assert(replaced(rest, needle@, with@) == with@ + replaced(
                rest.skip(n as int),
                needle@,
                with@,
            ));
            assert(rest.skip(n as int) =~= s@.skip(i + n));
            i += n;
            start = i;
            assert(s@.subrange(start as int, i as int) =~= Seq::<char>::empty());
            assert(out@ + s@.subrange(start as int, i as int) + replaced(
                s@.skip(i as int),
                needle@,
                with@,
            ) =~= before + literal + (with@ + replaced(s@.skip(i as int), needle@, with@)));
        } else {
            assert(rest.skip(1) =~= s@.skip(i + 1));
            assert(s@.subrange(start as int, i + 1) =~= s@.subrange(start as int, i as int)
                + seq![rest[0]]);
            assert(before + s@.subrange(start as int, i + 1) + replaced(
                s@.skip(i + 1),
                needle@,
                with@,
            ) =~= before + s@.subrange(start as int, i as int) + replaced(rest, needle@, with@));
            i += 1;
        }
    }
    let ghost before = out@;
    out.append(s.substring_char(start, chars.len()));
    assert(before + s@.subrange(start as int, s@.len() as int) =~= before + s@.subrange(
        start as int,
        i as int,
    ) + s@.skip(i as int));
    out
}

} // verus!
