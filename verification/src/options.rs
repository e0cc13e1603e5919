//! Mount options as the user types them: one line of text, the options
//! parted by commas.

use vstd::prelude::*;
use crate::text::{chars_of, extend, matches_at, string_of, tail};

verus! {

/// The pieces of `text` between each `sep` and the next. A text without
/// `sep` is one piece; the empty text is one empty piece.
pub open spec fn split(text: Seq<char>, sep: char) -> Seq<Seq<char>>
    decreases text.len(),
{
    if text.len() == 0 {
        seq![Seq::empty()]
    } else {
        let front = split(text.drop_last(), sep);
        if text.last() == sep {
            front.push(Seq::empty())
        } else {
            front.drop_last().push(front.last().push(text.last()))
        }
    }
}

/// The pieces of `parts` in a row, with `sep` between each and the next.
pub open spec fn joined(parts: Seq<Seq<char>>, sep: Seq<char>) -> Seq<char>
    decreases parts.len(),
{
    if parts.len() == 0 {
        Seq::empty()
    } else if parts.len() == 1 {
        parts[0]
    } else {
        joined(parts.drop_last(), sep) + sep + parts.last()
    }
}

/// Whether a piece of the line is the option asked for: the option itself,
/// or with `check_prefix` anything that begins with it.
pub open spec fn is_option(piece: Seq<char>, option: Seq<char>, check_prefix: bool) -> bool {
    if check_prefix {
        option.is_prefix_of(piece)
    } else {
        piece == option
    }
}

/// Those of `pieces` that are the option asked for, in their order.
pub open spec fn kept(pieces: Seq<Seq<char>>, option: Seq<char>, check_prefix: bool) -> Seq<
    Seq<char>,
>
    decreases pieces.len(),
{
    if pieces.len() == 0 {
        Seq::empty()
    } else if is_option(pieces.last(), option, check_prefix) {
        kept(pieces.drop_last(), option, check_prefix).push(pieces.last())
    } else {
        kept(pieces.drop_last(), option, check_prefix)
    }
}

/// The characters of each piece.
pub open spec fn views(pieces: Seq<Vec<char>>) -> Seq<Seq<char>> {
    pieces.map_values(|piece: Vec<char>| piece@)
}

/// The characters of each string.
pub open spec fn string_views(parts: Seq<String>) -> Seq<Seq<char>> {
    parts.map_values(|part: String| part@)
}

/// Splitting gives at least one piece, none of which holds the separator,
/// and joining the pieces with the separator gives the text back.
pub proof fn lemma_split_join(text: Seq<char>, sep: char)
    ensures
        split(text, sep).len() >= 1,
        forall|k: int|
            0 <= k < split(text, sep).len() ==> !(#[trigger] split(text, sep)[k]).contains(sep),
        joined(split(text, sep), seq![sep]) == text,
    decreases text.len(),
{
    let pieces = split(text, sep);
    if text.len() == 0 {
        assert(pieces[0] == Seq::<char>::empty());
    } else {
        let shorter = text.drop_last();
        let front = split(shorter, sep);
        lemma_split_join(shorter, sep);
        if text.last() == sep {
            assert(pieces.drop_last() == front);
            assert(joined(pieces, seq![sep]) == shorter + seq![sep] + Seq::<char>::empty());
            assert(shorter + seq![sep] + Seq::<char>::empty() == text);
        } else {
            let last = front.last().push(text.last());
            assert(pieces.last() == last);
            assert(pieces.drop_last() == front.drop_last());
            assert forall|k: int| 0 <= k < pieces.len() implies !(#[trigger] pieces[k]).contains(
                sep,
            ) by {
                if k < pieces.len() - 1 {
                    assert(pieces[k] == front[k]);
                } else {
                    if last.contains(sep) {
                        let at = choose|at: int| 0 <= at < last.len() && last[at] == sep;
                        assert(front.last()[at] == sep);
                    }
                }
            }
            if front.len() == 1 {
                assert(front[0] == shorter);
                assert(last == text);
            } else {
                let before = joined(front.drop_last(), seq![sep]);
                assert(shorter == before + seq![sep] + front.last());
                assert(text == shorter.push(text.last()));
                assert((before + seq![sep] + front.last()).push(text.last()) == before
                    + seq![sep] + last);
            }
        }
    }
}

/// The pieces of `text` between commas.
pub fn split_options(text: &Vec<char>) -> (pieces: Vec<Vec<char>>)
    ensures
        views(pieces@) == split(text@, ','),
{
    let mut pieces: Vec<Vec<char>> = Vec::new();
    let mut current: Vec<char> = Vec::new();
    let mut k: usize = 0;
    assert(views(pieces@).push(current@) == split(text@.take(0), ','));
    while k < text.len()
        invariant
            k <= text.len(),
            views(pieces@).push(current@) == split(text@.take(k as int), ','),
        decreases text.len() - k,
    {
        let c = text[k];
        let ghost before = views(pieces@);
        let ghost piece = current@;
        proof {
            assert(text@.take(k + 1).drop_last() == text@.take(k as int));
            assert(text@.take(k + 1).last() == c);
            assert(before.push(piece).drop_last() == before);
        }
        if c == ',' {
            pieces.push(current);
            current = Vec::new();
            assert(views(pieces@) == before.push(piece));
        } else {
            current.push(c);
        }
        k += 1;
    }
    assert(text@.take(k as int) == text@);
    let ghost before = views(pieces@);
    pieces.push(current);
    assert(views(pieces@) == before.push(current@));
    pieces
}

/// The strings of `parts` in a row, with `sep` between each and the next.
///
/// Calls `itertools::Itertools::join` on the strings. It writes the first
/// element, then for each further one the separator and the element; for no
/// elements it gives the empty string.
#[verifier::external_body]
fn join(parts: &Vec<String>, sep: &str) -> (line: String)
    ensures
        line@ == joined(string_views(parts@), sep@),
{
    itertools::Itertools::join(&mut parts.iter(), sep)
}

/// Whether piece `at` is the first of `pieces` that is the option asked for.
pub open spec fn is_first_option(
    pieces: Seq<Seq<char>>,
    option: Seq<char>,
    check_prefix: bool,
    at: int,
) -> bool {
    &&& 0 <= at < pieces.len()
    &&& is_option(pieces[at], option, check_prefix)
    &&& forall|j: int| 0 <= j < at ==> !is_option(#[trigger] pieces[j], option, check_prefix)
}

/// Whether the line of options `text` holds `option`, and with `check_prefix`
/// what follows `option` in the first piece that begins with it.
pub fn has_option(text: &str, option: &str, check_prefix: bool) -> (found: (bool, Option<String>))
    ensures
        found.0 == exists|at: int|
            is_first_option(split(text@, ','), option@, check_prefix, at),
        found.0 == exists|k: int|
            0 <= k < split(text@, ',').len() && is_option(
                #[trigger] split(text@, ',')[k],
                option@,
                check_prefix,
            ),
        !check_prefix || !found.0 ==> found.1 is None,
        forall|at: int|
            check_prefix && is_first_option(split(text@, ','), option@, check_prefix, at) ==> (
            found.1 is Some && found.1->0@ == split(text@, ',')[at].skip(option@.len() as int)),
{
    let pieces = split_options(&chars_of(text));
    let wanted = chars_of(option);
    let mut k: usize = 0;
    while k < pieces.len()
        invariant
            k <= pieces.len(),
            views(pieces@) == split(text@, ','),
            wanted@ == option@,
            forall|j: int|
                0 <= j < k ==> !is_option(#[trigger] split(text@, ',')[j], option@, check_prefix),
        decreases pieces.len() - k,
    {
        let piece = &pieces[k];
        assert(views(pieces@)[k as int] == piece@);
        let begins = matches_at(piece, &wanted, 0);
        if check_prefix {
            if begins {
                let value = string_of(&tail(piece, wanted.len()));
                assert(is_first_option(split(text@, ','), option@, check_prefix, k as int));
                return (true, Some(value));
            }
        } else if begins && piece.len() == wanted.len() {
            assert(piece@.subrange(0, piece@.len() as int) == piece@);
            assert(is_first_option(split(text@, ','), option@, check_prefix, k as int));
            return (true, None);
        } else {
            assert(piece@ != option@) by {
                if piece@ == option@ {
                    assert(piece@.subrange(0, piece@.len() as int) == piece@);
                }
            }
        }
        k += 1;
    }
    (false, None)
}

/// The line of options after `option`, with `prefix` before it, has been put
/// behind what the line held; with `add_to_front` the option goes first and
/// the prefix stands between it and what the line held. A comma parts old
/// and new unless the line was empty.
pub open spec fn spec_add_option(
    text: Seq<char>,
    prefix: Seq<char>,
    option: Seq<char>,
    add_to_front: bool,
) -> Seq<char> {
    let comma = if text.len() == 0 {
        Seq::<char>::empty()
    } else {
        seq![',']
    };
    if add_to_front {
        option + comma + prefix + text
    } else {
        text + comma + prefix + option
    }
}

/// Adds an option to a line of options; see [`spec_add_option`].
pub fn add_option(text: &str, prefix: &str, option: &str, add_to_front: bool) -> (line: String)
    ensures
        line@ == spec_add_option(text@, prefix@, option@, add_to_front),
{
    let old = chars_of(text);
    let before = chars_of(prefix);
    let new = chars_of(option);
    let mut line: Vec<char> = Vec::new();
    if add_to_front {
        extend(&mut line, &new);
    } else {
        extend(&mut line, &old);
    }
    if old.len() > 0 {
        line.push(',');
    }
    extend(&mut line, &before);
    if add_to_front {
        extend(&mut line, &old);
    } else {
        extend(&mut line, &new);
    }
    proof {
        let comma = if text@.len() == 0 {
            Seq::<char>::empty()
        } else {
            seq![',']
        };
        if add_to_front {
            assert(line@ == option@ + comma + prefix@ + text@);
        } else {
            assert(line@ == text@ + comma + prefix@ + option@);
        }
    }
    string_of(&line)
}

/// The line of options made of those pieces of `text` that are `option`, or
/// with `check_prefix` begin with it, comma between them.
pub fn remove_option(text: &str, option: &str, check_prefix: bool) -> (line: String)
    ensures
        line@ == joined(kept(split(text@, ','), option@, check_prefix), seq![',']),
{
    let pieces = split_options(&chars_of(text));
    let wanted = chars_of(option);
    let mut chosen: Vec<String> = Vec::new();
    let mut k: usize = 0;
    assert(views(pieces@).take(0) == Seq::<Seq<char>>::empty());
    while k < pieces.len()
        invariant
            k <= pieces.len(),
            wanted@ == option@,
            string_views(chosen@) == kept(views(pieces@).take(k as int), option@, check_prefix),
        decreases pieces.len() - k,
    {
        let piece = &pieces[k];
        let ghost before = string_views(chosen@);
        proof {
            let longer = views(pieces@).take(k + 1);
            assert(longer.drop_last() == views(pieces@).take(k as int));
            assert(longer.last() == piece@);
        }
        let begins = matches_at(piece, &wanted, 0);
        let same = begins && piece.len() == wanted.len();
        proof {
            assert(piece@.subrange(0, piece@.len() as int) == piece@);
            assert(same == (piece@ == option@));
        }
        if (check_prefix && begins) || same {
            chosen.push(string_of(piece));
            assert(string_views(chosen@) == before.push(piece@));
        }
        k += 1;
    }
    assert(views(pieces@).take(k as int) == views(pieces@));
    proof {
        reveal_strlit(",");
        assert(","@ == seq![',']);
    }
    join(&chosen, ",")
}

/// What a change of a switch or of the line means for the other.
#[derive(Debug)]
pub enum OptionChange {
    /// Nothing is to be done.
    Keep,
    /// The line of options becomes this text.
    SetText(String),
    /// The switch is set to this.
    SetActive(bool),
    /// The entry shows the value of the option, which is this text with its
    /// escapes still in it.
    SetEntry(String),
}

/// Brings a switch and the line of options in step.
///
/// `in_line` is whether the line holds the option, `active` the state of
/// the switch; with `negate` the switch stands for the absence of the
/// option. Where the two agree nothing changes. Where they differ the one
/// that the user just changed wins: with `from_switch` the line follows the
/// switch, else the switch follows the line.
pub fn update_check_option(
    text: &str,
    option: &str,
    from_switch: bool,
    active: bool,
    negate: bool,
    add_to_front: bool,
) -> (change: OptionChange)
    ensures
        ({
            let in_line = exists|k: int|
                0 <= k < split(text@, ',').len() && is_option(
                    #[trigger] split(text@, ',')[k],
                    option@,
                    false,
                );
            let wanted = if negate {
                !active
            } else {
                active
            };
            if in_line == wanted {
                change is Keep
            } else if !from_switch {
                change == OptionChange::SetActive(
                    if negate {
                        !in_line
                    } else {
                        in_line
                    },
                )
            } else if wanted {
                change matches OptionChange::SetText(line) && line@ == spec_add_option(
                    text@,
                    Seq::empty(),
                    option@,
                    add_to_front,
                )
            } else {
                change matches OptionChange::SetText(line) && line@ == joined(
                    kept(split(text@, ','), option@, false),
                    seq![','],
                )
            }
        }),
{
    let (in_line, _) = has_option(text, option, false);
    if (!negate && (in_line != active)) || (negate && (in_line == active)) {
        if from_switch {
            if (!negate && active) || (negate && !active) {
                proof {
                    reveal_strlit("");
                    assert(""@ == Seq::<char>::empty());
                }
                OptionChange::SetText(add_option(text, "", option, add_to_front))
            } else {
                OptionChange::SetText(remove_option(text, option, false))
            }
        } else if negate {
            OptionChange::SetActive(!in_line)
        } else {
            OptionChange::SetActive(in_line)
        }
    } else {
        OptionChange::Keep
    }
}

/// The value that the line gives the option `option`: what follows it in
/// the first piece that begins with it, and nothing where there is none.
pub open spec fn value_of(pieces: Seq<Seq<char>>, option: Seq<char>) -> Seq<char> {
    if exists|at: int| is_first_option(pieces, option, true, at) {
        let at = choose|at: int| is_first_option(pieces, option, true, at);
        pieces[at].skip(option.len() as int)
    } else {
        Seq::empty()
    }
}

/// Brings an entry and the option of the line that holds its value in
/// step.
///
/// `ui` is the text of the entry and `ui_escaped` the same with what must
/// not stand in an option escaped. Where the line gives the option the
/// escaped text as its value, nothing changes. Else, with `from_entry`, the
/// line follows the entry: it becomes what [`remove_option`] leaves of it,
/// and behind that the option with the text of the entry, unless that is
/// empty. Without `from_entry` the entry is to show the value of the line.
pub fn update_entry_option(
    text: &str,
    option: &str,
    from_entry: bool,
    ui: &str,
    ui_escaped: &str,
) -> (change: OptionChange)
    ensures
        ({
            let value = value_of(split(text@, ','), option@);
            let left = joined(kept(split(text@, ','), option@, true), seq![',']);
            if value == ui_escaped@ {
                change is Keep
            } else if !from_entry {
                change matches OptionChange::SetEntry(shown) && shown@ == value
            } else if ui_escaped@.len() > 0 {
                change matches OptionChange::SetText(line) && line@ == spec_add_option(
                    left,
                    option@,
                    ui@,
                    false,
                )
            } else {
                change matches OptionChange::SetText(line) && line@ == left
            }
        }),
{
    let (_, found) = has_option(text, option, true);
    let value = match found {
        Some(value) => value,
        None => String::new(),
    };
    if crate::text::same_text(value.as_str(), ui_escaped) {
        return OptionChange::Keep;
    }
    if from_entry {
        let left = remove_option(text, option, true);
        if ui_escaped.unicode_len() > 0 {
            OptionChange::SetText(add_option(left.as_str(), option, ui, false))
        } else {
            OptionChange::SetText(left)
        }
    } else {
        OptionChange::SetEntry(value)
    }
}

} // verus!
