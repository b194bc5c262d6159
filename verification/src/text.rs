//! Text helpers: searching, file-name parts, path building and case folding.

use vstd::prelude::*;
use vstd::string::*;

verus! {

/// The lower-case form of `text`, as `str::to_lowercase` computes it.
pub uninterp spec fn lowercase_of(text: Seq<char>) -> Seq<char>;

/// Calls `str::to_lowercase`. Believed, not proved: that the result depends
/// on the characters of `text` alone. The contract gives that result a name,
/// `lowercase_of`, and says nothing else of it: the Unicode lower-case
/// mapping is not spelled out here.
#[verifier::external_body]
pub(crate) fn to_lowercase(text: &str) -> (lower: String)
    ensures
        lower@ == lowercase_of(text@),
{
    text.to_lowercase()
}

/// The position of the last `c` in `text`, or -1 if `text` holds none.
pub open spec fn last_index_of(text: Seq<char>, c: char) -> int
    decreases text.len(),
{
    if text.len() == 0 {
        -1
    } else if text.last() == c {
        text.len() - 1
    } else {
        last_index_of(text.drop_last(), c)
    }
}

/// The position of the first `c` in `text`, or the length of `text` if it
/// holds none.
pub open spec fn first_index_of(text: Seq<char>, c: char) -> int
    decreases text.len(),
{
    if text.len() == 0 {
        0
    } else if text.first() == c {
        0
    } else {
        1 + first_index_of(text.drop_first(), c)
    }
}

/// `last_index_of` gives the greatest position that holds `c`.
pub proof fn lemma_last_index_of(text: Seq<char>, c: char)
    ensures
        -1 <= last_index_of(text, c) < text.len(),
        last_index_of(text, c) >= 0 ==> text[last_index_of(text, c)] == c,
        forall|j: int| last_index_of(text, c) < j < text.len() ==> text[j] != c,
    decreases text.len(),
{
    if text.len() > 0 && text.last() != c {
        let front = text.drop_last();
        lemma_last_index_of(front, c);
        assert forall|j: int| last_index_of(text, c) < j < text.len() implies text[j] != c by {
            if j < front.len() {
                assert(text[j] == front[j]);
            }
        }
    }
}

/// `first_index_of` gives the least position that holds `c`.
pub proof fn lemma_first_index_of(text: Seq<char>, c: char)
    ensures
        0 <= first_index_of(text, c) <= text.len(),
        first_index_of(text, c) < text.len() ==> text[first_index_of(text, c)] == c,
        forall|j: int| 0 <= j < first_index_of(text, c) ==> text[j] != c,
    decreases text.len(),
{
    if text.len() > 0 && text.first() != c {
        let rest = text.drop_first();
        lemma_first_index_of(rest, c);
        assert forall|j: int| 0 <= j < first_index_of(text, c) implies text[j] != c by {
            if j > 0 {
                assert(text[j] == rest[j - 1]);
            }
        }
    }
}

/// The characters of `text`, one by one.
pub fn chars_of(text: &str) -> (chars: Vec<char>)
    ensures
        chars@ == text@,
{
    let mut chars: Vec<char> = Vec::new();
    for c in it: text.chars()
        invariant
            it.seq() == text@,
            chars@ == text@.take(it.index()),
    {
        chars.push(c);
    }
    chars
}

/// Finds the last `c` in `chars`.
pub fn find_last(chars: &Vec<char>, c: char) -> (found: Option<usize>)
    ensures
        match found {
            Some(i) => i == last_index_of(chars@, c) && i < chars.len(),
            None => last_index_of(chars@, c) == -1,
        },
{
    proof {
        lemma_last_index_of(chars@, c);
    }
    let mut i: usize = chars.len();
    assert(chars@.take(i as int) == chars@);
    while i > 0
        invariant
            i <= chars.len(),
            last_index_of(chars@, c) == last_index_of(chars@.take(i as int), c),
        decreases i,
    {
        if chars[i - 1] == c {
            assert(chars@.take(i as int).last() == c);
            return Some(i - 1);
        }
        assert(chars@.take(i as int).drop_last() == chars@.take(i - 1));
        i = i - 1;
    }
    None
}

/// Finds the first `c`; the length if there is none.
pub fn find_first(chars: &Vec<char>, c: char) -> (found: usize)
    ensures
        found == first_index_of(chars@, c),
{
    let mut i: usize = 0;
    assert(chars@.skip(0) == chars@);
    while i < chars.len()
        invariant
            i <= chars.len(),
            first_index_of(chars@, c) == i + first_index_of(chars@.skip(i as int), c),
        decreases chars.len() - i,
    {
        if chars[i] == c {
            return i;
        }
        assert(chars@.skip(i as int).drop_first() == chars@.skip(i + 1));
        i = i + 1;
    }
    i
}

/// Whether two texts hold the same characters.
pub fn same_text(left: &str, right: &str) -> (same: bool)
    ensures
        same == (left@ == right@),
{
    let a = chars_of(left);
    let b = chars_of(right);
    if a.len() != b.len() {
        return false;
    }
    let mut i: usize = 0;
    while i < a.len()
        invariant
            i <= a.len(),
            a.len() == b.len(),
            a@ == left@,
            b@ == right@,
            a@.take(i as int) == b@.take(i as int),
        decreases a.len() - i,
    {
        if a[i] != b[i] {
            assert(left@[i as int] != right@[i as int]);
            return false;
        }
        assert(a@.take(i + 1) == a@.take(i as int).push(a@[i as int]));
        assert(b@.take(i + 1) == b@.take(i as int).push(b@[i as int]));
        i = i + 1;
    }
    assert(a@.take(a.len() as int) == a@);
    assert(b@.take(b.len() as int) == b@);
    true
}

/// The code of a character, with the ASCII capitals counted as their small
/// letters.
pub open spec fn ascii_fold(c: char) -> int {
    if 'A' <= c <= 'Z' {
        c as int + 32
    } else {
        c as int
    }
}

/// The codes of a text, without regard to the case of its ASCII letters.
pub open spec fn ascii_folded(text: Seq<char>) -> Seq<int> {
    text.map_values(|c: char| ascii_fold(c))
}

/// Whether two characters are the same but for the case of an ASCII letter.
fn same_char_ignoring_ascii_case(left: char, right: char) -> (same: bool)
    ensures
        same == (ascii_fold(left) == ascii_fold(right)),
{
    let a: u32 = if 'A' <= left && left <= 'Z' {
        left as u32 + 32
    } else {
        left as u32
    };
    let b: u32 = if 'A' <= right && right <= 'Z' {
        right as u32 + 32
    } else {
        right as u32
    };
    a == b
}

/// Whether two texts are the same but for the case of their ASCII letters.
pub fn same_text_ignoring_ascii_case(left: &str, right: &str) -> (same: bool)
    ensures
        same == (ascii_folded(left@) == ascii_folded(right@)),
{
    let a = chars_of(left);
    let b = chars_of(right);
    if a.len() != b.len() {
        assert(ascii_folded(left@).len() != ascii_folded(right@).len());
        return false;
    }
    let mut i: usize = 0;
    while i < a.len()
        invariant
            i <= a.len(),
            a.len() == b.len(),
            a@ == left@,
            b@ == right@,
            ascii_folded(left@).take(i as int) == ascii_folded(right@).take(i as int),
        decreases a.len() - i,
    {
        if !same_char_ignoring_ascii_case(a[i], b[i]) {
            assert(ascii_folded(left@)[i as int] != ascii_folded(right@)[i as int]);
            return false;
        }
        assert(ascii_folded(left@).take(i + 1) == ascii_folded(left@).take(i as int).push(
            ascii_fold(left@[i as int]),
        ));
        assert(ascii_folded(right@).take(i + 1) == ascii_folded(right@).take(i as int).push(
            ascii_fold(right@[i as int]),
        ));
        i = i + 1;
    }
    assert(ascii_folded(left@).take(a.len() as int) == ascii_folded(left@));
    assert(ascii_folded(right@).take(b.len() as int) == ascii_folded(right@));
    true
}

/// Whether `text` begins with `prefix`.
pub fn starts_with(text: &str, prefix: &str) -> (found: bool)
    ensures
        found == prefix@.is_prefix_of(text@),
{
    let width = prefix.unicode_len();
    if width > text.unicode_len() {
        return false;
    }
    same_text(text.substring_char(0, width), prefix)
}

/// The last component of a `/`-separated path: what follows its last `/`.
pub open spec fn file_name_of(path: Seq<char>) -> Seq<char> {
    path.skip(last_index_of(path, '/') + 1)
}

/// The stem of a file name: what stands before its last `.`; the whole name
/// where it holds no `.`, or none but a leading one.
pub open spec fn stem_of(name: Seq<char>) -> Seq<char> {
    let dot = last_index_of(name, '.');
    if dot <= 0 {
        name
    } else {
        name.take(dot)
    }
}

/// The extension of a file name: what follows its last `.`, if the name
/// holds one that is not its first character.
pub open spec fn extension_of(name: Seq<char>) -> Option<Seq<char>> {
    let dot = last_index_of(name, '.');
    if dot <= 0 {
        None
    } else {
        Some(name.skip(dot + 1))
    }
}

/// The path of the entry `name` inside `directory`.
pub open spec fn child_path(directory: Seq<char>, name: Seq<char>) -> Seq<char> {
    if directory.len() == 0 || directory.last() == '/' {
        directory + name
    } else {
        directory + seq!['/'] + name
    }
}

/// A request target without its query: what stands before the first `?`.
pub open spec fn without_query(target: Seq<char>) -> Seq<char> {
    target.take(first_index_of(target, '?'))
}

/// A stem of at least one character, followed by `.json`, is a file name
/// with that stem.
pub proof fn lemma_stem_of_json_name(stem: Seq<char>)
    requires
        stem.len() > 0,
    ensures
        stem_of(stem + ".json"@) == stem,
{
    reveal_strlit(".json");
    let name = stem + ".json"@;
    let n = stem.len() as int;
    assert(name.len() == n + 5);
    assert(name[n] == '.' && name[n + 1] == 'j' && name[n + 2] == 's' && name[n + 3] == 'o' && name[n + 4] == 'n');
    let four = name.drop_last();
    let three = four.drop_last();
    let two = three.drop_last();
    let one = two.drop_last();
    assert(four.last() == 'o' && three.last() == 's' && two.last() == 'j' && one.last() == '.');
    assert(last_index_of(one, '.') == n);
    assert(last_index_of(two, '.') == n);
    assert(last_index_of(three, '.') == n);
    assert(last_index_of(four, '.') == n);
    assert(last_index_of(name, '.') == n);
    assert(name.take(n) == stem);
}

/// The stem of the file name `name`.
pub fn file_stem(name: &str) -> (stem: String)
    ensures
        stem@ == stem_of(name@),
{
    let chars = chars_of(name);
    match find_last(&chars, '.') {
        Some(dot) => {
            if dot == 0 {
                name.to_owned()
            } else {
                name.substring_char(0, dot).to_owned()
            }
        },
        None => name.to_owned(),
    }
}

/// Whether the file that `path` names has the extension `extension`.
pub fn has_extension(path: &str, extension: &str) -> (has: bool)
    ensures
        has == (extension_of(file_name_of(path@)) == Some(extension@)),
{
    let chars = chars_of(path);
    let start: usize = match find_last(&chars, '/') {
        Some(slash) => slash + 1,
        None => 0,
    };
    let name = path.substring_char(start, chars.len());
    assert(name@ == file_name_of(path@));
    let name_chars = chars_of(name);
    match find_last(&name_chars, '.') {
        Some(dot) => {
            if dot == 0 {
                false
            } else {
                same_text(name.substring_char(dot + 1, name_chars.len()), extension)
            }
        },
        None => false,
    }
}

/// Builds the path of the entry `name` inside `directory`.
pub fn join_path(directory: &str, name: &str) -> (path: String)
    ensures
        path@ == child_path(directory@, name@),
{
    let chars = chars_of(directory);
    let mut path = directory.to_owned();
    if chars.len() > 0 && chars[chars.len() - 1] != '/' {
        proof {
            reveal_strlit("/");
        }
        path.append("/");
        assert(path@ == directory@ + seq!['/']);
    }
    path.append(name);
    path
}

/// Cuts the query off a request target.
pub fn strip_query(target: &str) -> (path: String)
    ensures
        path@ == without_query(target@),
{
    let chars = chars_of(target);
    let end = find_first(&chars, '?');
    proof {
        lemma_first_index_of(target@, '?');
    }
    target.substring_char(0, end).to_owned()
}

} // verus!
