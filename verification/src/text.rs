//! Text as sequences of characters: the few operations on strings that the
//! rest of the library needs.

use vstd::prelude::*;

verus! {

/// Whether `pattern` stands in `text` at position `at`.
pub open spec fn occurs_at(text: Seq<char>, pattern: Seq<char>, at: int) -> bool {
    &&& 0 <= at
    &&& at + pattern.len() <= text.len()
    &&& text.subrange(at, at + pattern.len()) == pattern
}

/// A pattern stands at a position exactly if what follows the position
/// begins with it.
pub proof fn lemma_occurs_at_is_prefix(text: Seq<char>, pattern: Seq<char>, at: int)
    requires
        0 <= at <= text.len(),
    ensures
        occurs_at(text, pattern, at) == pattern.is_prefix_of(text.skip(at)),
{
    if at + pattern.len() <= text.len() {
        assert(text.skip(at).subrange(0, pattern.len() as int) == text.subrange(
            at,
            at + pattern.len(),
        ));
    }
}

/// The characters of `text`.
pub fn chars_of(text: &str) -> (chars: Vec<char>)
    ensures
        chars@ == text@,
{
    let mut chars: Vec<char> = Vec::new();
    for c in it: text.chars()
        invariant
            chars@ == it.seq().take(it.index() as int),
            it.seq() == text@,
    {
        chars.push(c);
    }
    chars
}

/// The string made of `chars`.
///
/// Calls `String::from_iter` of std on the characters; the claim is that
/// the string holds those characters, in their order, and nothing else.
#[verifier::external_body]
pub(crate) fn string_of(chars: &Vec<char>) -> (text: String)
    ensures
        text@ == chars@,
{
    String::from_iter(chars.iter())
}

/// Whether `pattern` stands in `text` at position `at`.
pub fn matches_at(text: &Vec<char>, pattern: &Vec<char>, at: usize) -> (found: bool)
    ensures
        found == occurs_at(text@, pattern@, at as int),
{
    if pattern.len() > text.len() || at > text.len() - pattern.len() {
        return false;
    }
    let mut k: usize = 0;
    while k < pattern.len()
        invariant
            k <= pattern.len(),
            at + pattern.len() <= text.len(),
            forall|j: int| 0 <= j < k ==> text@[at + j] == pattern@[j],
        decreases pattern.len() - k,
    {
        if text[at + k] != pattern[k] {
            assert(text@.subrange(at as int, at + pattern.len())[k as int] != pattern@[k as int]);
            return false;
        }
        k += 1;
    }
    assert(text@.subrange(at as int, at + pattern.len()) =~= pattern@);
    true
}

/// Whether two strings hold the same characters.
pub fn same_text(a: &str, b: &str) -> (same: bool)
    ensures
        same == (a@ == b@),
{
    let left = chars_of(a);
    let right = chars_of(b);
    if left.len() != right.len() {
        return false;
    }
    let found = matches_at(&left, &right, 0);
    assert(left@.subrange(0, left@.len() as int) == left@);
    found
}

/// Whether `text` begins with `prefix`.
pub fn starts_with(text: &str, prefix: &str) -> (found: bool)
    ensures
        found == prefix@.is_prefix_of(text@),
{
    let whole = chars_of(text);
    let start = chars_of(prefix);
    matches_at(&whole, &start, 0)
}

/// Whether `text` ends with `suffix`.
pub fn ends_with(text: &str, suffix: &str) -> (found: bool)
    ensures
        found == suffix@.is_suffix_of(text@),
{
    let whole = chars_of(text);
    let end = chars_of(suffix);
    if end.len() > whole.len() {
        return false;
    }
    matches_at(&whole, &end, whole.len() - end.len())
}

/// `text` with the first `pattern` in it replaced by `with`; `text` itself
/// where it holds no `pattern`.
pub open spec fn replaced_first(text: Seq<char>, pattern: Seq<char>, with: Seq<char>) -> Seq<
    char,
>
    decreases text.len(),
{
    if pattern.is_prefix_of(text) {
        with + text.skip(pattern.len() as int)
    } else if text.len() == 0 {
        text
    } else {
        seq![text[0]] + replaced_first(text.skip(1), pattern, with)
    }
}

/// `text` with every `pattern` in it replaced by `with`, from the left, what
/// was put in not being looked at again. An empty pattern changes nothing.
pub open spec fn replaced_all(text: Seq<char>, pattern: Seq<char>, with: Seq<char>) -> Seq<char>
    decreases text.len(),
{
    if text.len() == 0 {
        text
    } else if pattern.len() > 0 && pattern.is_prefix_of(text) {
        with + replaced_all(text.skip(pattern.len() as int), pattern, with)
    } else {
        seq![text[0]] + replaced_all(text.skip(1), pattern, with)
    }
}

/// `text` after each of `args` in turn has taken the place of the first
/// `%s` that the text then holds.
pub open spec fn args_replaced(text: Seq<char>, args: Seq<Seq<char>>) -> Seq<char>
    decreases args.len(),
{
    if args.len() == 0 {
        text
    } else {
        replaced_first(args_replaced(text, args.drop_last()), "%s"@, args.last())
    }
}

/// The characters of each string of `args`.
pub open spec fn texts(args: Seq<&str>) -> Seq<Seq<char>> {
    args.map_values(|arg: &str| arg@)
}

/// Puts all of `more` at the end of `chars`.
pub fn extend(chars: &mut Vec<char>, more: &Vec<char>)
    ensures
        final(chars)@ == old(chars)@ + more@,
{
    let mut k: usize = 0;
    while k < more.len()
        invariant
            k <= more.len(),
            chars@ == old(chars)@ + more@.take(k as int),
        decreases more.len() - k,
    {
        chars.push(more[k]);
        k += 1;
    }
    assert(more@.take(k as int) == more@);
}

/// The characters of `chars` from position `from` on.
pub fn tail(chars: &Vec<char>, from: usize) -> (rest: Vec<char>)
    requires
        from <= chars@.len(),
    ensures
        rest@ == chars@.skip(from as int),
{
    let mut rest: Vec<char> = Vec::new();
    let mut k: usize = from;
    while k < chars.len()
        invariant
            from <= k <= chars.len(),
            rest@ == chars@.subrange(from as int, k as int),
        decreases chars.len() - k,
    {
        rest.push(chars[k]);
        k += 1;
    }
    rest
}

/// `text` with the first `pattern` in it replaced by `with`.
pub fn replace_first(text: &Vec<char>, pattern: &Vec<char>, with: &Vec<char>) -> (out: Vec<char>)
    ensures
        out@ == replaced_first(text@, pattern@, with@),
{
    let mut out: Vec<char> = Vec::new();
    let mut k: usize = 0;
    assert(text@.skip(0) == text@);
    while k < text.len()
        invariant
            k <= text.len(),
            out@ == text@.take(k as int),
            replaced_first(text@, pattern@, with@) == out@ + replaced_first(
                text@.skip(k as int),
                pattern@,
                with@,
            ),
        decreases text.len() - k,
    {
        let ghost rest = text@.skip(k as int);
        proof {
            lemma_occurs_at_is_prefix(text@, pattern@, k as int);
        }
        if matches_at(text, pattern, k) {
            extend(&mut out, with);
            let after = tail(text, k + pattern.len());
            extend(&mut out, &after);
            assert(rest.skip(pattern@.len() as int) == text@.skip(k + pattern@.len()));
            assert(text@.take(k as int) + (with@ + rest.skip(pattern@.len() as int))
                == text@.take(k as int) + with@ + after@);
            return out;
        }
        proof {
            assert(rest.skip(1) == text@.skip(k + 1));
            assert(text@.take(k + 1) == text@.take(k as int) + seq![rest[0]]);
            assert(text@.take(k as int) + (seq![rest[0]] + replaced_first(
                rest.skip(1),
                pattern@,
                with@,
            )) == text@.take(k as int) + seq![rest[0]] + replaced_first(
                rest.skip(1),
                pattern@,
                with@,
            ));
        }
        out.push(text[k]);
        k += 1;
    }
    let ghost rest = text@.skip(k as int);
    assert(rest.len() == 0);
    proof {
        lemma_occurs_at_is_prefix(text@, pattern@, k as int);
    }
    if matches_at(text, pattern, k) {
        assert(rest.skip(pattern@.len() as int) == Seq::<char>::empty());
        extend(&mut out, with);
        assert(text@.take(k as int) + (with@ + Seq::<char>::empty()) == text@.take(k as int)
            + with@);
    } else {
        assert(out@ + rest == out@);
    }
    out
}

/// `text` with every `pattern` in it replaced by `with`.
pub fn replace_all(text: &Vec<char>, pattern: &Vec<char>, with: &Vec<char>) -> (out: Vec<char>)
    ensures
        out@ == replaced_all(text@, pattern@, with@),
{
    let mut out: Vec<char> = Vec::new();
    let mut k: usize = 0;
    assert(text@.skip(0) == text@);
    while k < text.len()
        invariant
            k <= text.len(),
            replaced_all(text@, pattern@, with@) == out@ + replaced_all(
                text@.skip(k as int),
                pattern@,
                with@,
            ),
        decreases text.len() - k,
    {
        let ghost rest = text@.skip(k as int);
        let ghost before = out@;
        proof {
            lemma_occurs_at_is_prefix(text@, pattern@, k as int);
        }
        if pattern.len() > 0 && matches_at(text, pattern, k) {
            extend(&mut out, with);
            proof {
                assert(rest.skip(pattern@.len() as int) == text@.skip(k + pattern@.len()));
                assert(before + (with@ + replaced_all(
                    rest.skip(pattern@.len() as int),
                    pattern@,
                    with@,
                )) == before + with@ + replaced_all(
                    rest.skip(pattern@.len() as int),
                    pattern@,
                    with@,
                ));
            }
            k += pattern.len();
        } else {
            out.push(text[k]);
            proof {
                assert(rest.skip(1) == text@.skip(k + 1));
                assert(before + (seq![rest[0]] + replaced_all(rest.skip(1), pattern@, with@))
                    == before.push(rest[0]) + replaced_all(rest.skip(1), pattern@, with@));
            }
            k += 1;
        }
    }
    assert(text@.skip(k as int).len() == 0);
    assert(out@ + text@.skip(k as int) == out@);
    out
}

/// `s` after each of `args` in turn has taken the place of the first `%s`
/// that the text then holds. An argument for which no `%s` is left changes
/// nothing.
pub fn arg_replace(s: String, args: &[&str]) -> (out: String)
    ensures
        out@ == args_replaced(s@, texts(args@)),
{
    let pattern = chars_of("%s");
    let mut text = chars_of(s.as_str());
    let mut k: usize = 0;
    assert(texts(args@).take(0) == Seq::<Seq<char>>::empty());
    while k < args.len()
        invariant
            k <= args.len(),
            pattern@ == "%s"@,
            text@ == args_replaced(s@, texts(args@).take(k as int)),
        decreases args.len() - k,
    {
        let arg = chars_of(args[k]);
        proof {
            let longer = texts(args@).take(k + 1);
            assert(longer.drop_last() == texts(args@).take(k as int));
            assert(longer.last() == args@[k as int]@);
        }
        text = replace_first(&text, &pattern, &arg);
        k += 1;
    }
    assert(texts(args@).take(k as int) == texts(args@));
    string_of(&text)
}

/// `format` with every `{}` turned into `%s`: the placeholders as a message
/// catalogue has them.
pub fn c_style_format(format: &str) -> (out: String)
    ensures
        out@ == replaced_all(format@, "{}"@, "%s"@),
{
    let text = chars_of(format);
    let from = chars_of("{}");
    let to = chars_of("%s");
    string_of(&replace_all(&text, &from, &to))
}

/// A path as it is shown.
pub open spec fn spec_unfuse_path(
    path: Seq<char>,
    uri: Seq<char>,
    unescaped_uri: Seq<char>,
    home: Seq<char>,
) -> Seq<char> {
    let shown = if "file:"@.is_prefix_of(uri) {
        path
    } else {
        unescaped_uri
    };
    if home.is_prefix_of(shown) {
        let below = shown.skip(home.len() as int);
        "~/"@ + if "/"@.is_prefix_of(below) {
            below.skip("/"@.len() as int)
        } else {
            below
        }
    } else {
        shown
    }
}

/// A path as it is shown to the user. A file that the local file system
/// holds is shown by its path; any other by its URI, with the escapes
/// undone. What lies under the home directory is shown with `~` for the
/// home directory.
///
/// `uri` is the URI of the file, `unescaped_uri` the same with its escapes
/// undone, `home` the home directory.
pub fn unfuse_path(path: &str, uri: &str, unescaped_uri: &str, home: &str) -> (shown: String)
    ensures
        shown@ == spec_unfuse_path(path@, uri@, unescaped_uri@, home@),
{
    let shown = if starts_with(uri, "file:") {
        chars_of(path)
    } else {
        chars_of(unescaped_uri)
    };
    let home_chars = chars_of(home);
    if matches_at(&shown, &home_chars, 0) {
        let mut below = tail(&shown, home_chars.len());
        let slash = chars_of("/");
        if matches_at(&below, &slash, 0) {
            below = tail(&below, slash.len());
        }
        let mut out = chars_of("~/");
        extend(&mut out, &below);
        string_of(&out)
    } else {
        string_of(&shown)
    }
}

} // verus!
