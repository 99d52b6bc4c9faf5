//! Names that a file can have.

use crate::grammar::ascii_digit;
use crate::text::chars_of;
use vstd::prelude::*;

verus! {

/// Whether no file name can hold `c`.
pub open spec fn is_illegal(c: char) -> bool {
    ||| c == '/' || c == '?' || c == '<' || c == '>' || c == '\\'
    ||| c == ':' || c == '*' || c == '|' || c == '"'
    ||| c as int <= 0x1f
    ||| 0x80 <= c as int <= 0x9f
}

/// `name` without the characters that no file name can hold.
pub open spec fn legal_chars(name: Seq<char>) -> Seq<char> {
    name.filter(|c: char| !is_illegal(c))
}

/// `name` without the characters that no file name can hold, or nothing where only dots are left.
pub open spec fn legal_part(name: Seq<char>) -> Seq<char> {
    let legal = legal_chars(name);
    if forall|i: int| 0 <= i < legal.len() ==> legal[i] == '.' {
        seq![]
    } else {
        legal
    }
}

/// The number of bytes of `c` in UTF-8.
pub open spec fn width(c: char) -> int {
    if (c as int) < 0x80 {
        1
    } else if (c as int) < 0x800 {
        2
    } else if (c as int) < 0x10000 {
        3
    } else {
        4
    }
}

/// The number of bytes of `s` in UTF-8.
pub open spec fn byte_len(s: Seq<char>) -> int
    decreases s.len(),
{
    if s.len() == 0 {
        0
    } else {
        byte_len(s.drop_last()) + width(s.last())
    }
}

/// The longest beginning of `s` that has no more than 255 bytes.
pub open spec fn shortened(s: Seq<char>) -> Seq<char>
    decreases s.len(),
{
    if s.len() == 0 || byte_len(s) <= 255 {
        s
    } else {
        shortened(s.drop_last())
    }
}

/// `c` in lower case, where it is an ASCII letter.
pub open spec fn lower(c: char) -> char {
    if 'A' as int <= c as int <= 'Z' as int {
        (c as int + 32) as char
    } else {
        c
    }
}

/// Whether `s` is a name that Windows keeps for a device, alone or before a dot.
pub open spec fn is_reserved(s: Seq<char>) -> bool {
    let first = seq![lower(s[0]), lower(s[1]), lower(s[2])];
    let three = s.len() >= 3 && (first == seq!['c', 'o', 'n'] || first == seq!['p', 'r', 'n']
        || first == seq!['a', 'u', 'x'] || first == seq!['n', 'u', 'l']);
    let four = s.len() >= 4 && (first == seq!['c', 'o', 'm'] || first == seq!['l', 'p', 't'])
        && ascii_digit(s[3]);
    ||| three && (s.len() == 3 || s[3] == '.')
    ||| four && (s.len() == 4 || s[4] == '.')
}

/// `s` without the dots and spaces at its end.
pub open spec fn without_trailing(s: Seq<char>) -> Seq<char>
    decreases s.len(),
{
    if s.len() > 0 && (s.last() == '.' || s.last() == ' ') {
        without_trailing(s.drop_last())
    } else {
        s
    }
}

/// What Windows takes of `s`.
pub open spec fn windows_part(s: Seq<char>) -> Seq<char> {
    if is_reserved(s) {
        seq![]
    } else {
        without_trailing(s)
    }
}

/// Whether `r` is `name` made into a name that a file can have, on Windows or elsewhere.
pub open spec fn is_sanitized_from(r: Seq<char>, name: Seq<char>) -> bool {
    r == shortened(legal_part(name)) || r == shortened(windows_part(legal_part(name)))
}

/// `sanitize` of `sanitize_filename`: takes out the characters that no file name can hold and cuts
/// the rest after 255 bytes. Where only dots are left, nothing is. On Windows the names of devices
/// and the dots and spaces at the end go too; which machine it is, is left open.
#[verifier::external_body]
fn sanitize(name: &str) -> (r: String)
    ensures
        is_sanitized_from(r@, name@),
{
    sanitize_filename::sanitize(name)
}

/// A name that a file can have, made from `file_name`.
pub fn cleaned_name(file_name: &str) -> (r: String)
    ensures
        is_sanitized_from(r@, file_name@),
{
    sanitize(file_name)
}

/// The index of the last dot in `name` behind its first character, or 0 where there is none.
pub open spec fn last_dot(name: Seq<char>) -> int
    decreases name.len(),
{
    if name.len() <= 1 {
        0
    } else if name.last() == '.' {
        name.len() - 1
    } else {
        last_dot(name.drop_last())
    }
}

/// The extension of the file `name`: what follows the last dot, unless that is the first character.
pub open spec fn extension(name: Seq<char>) -> Option<Seq<char>> {
    if last_dot(name) > 0 {
        Some(name.skip(last_dot(name) + 1))
    } else {
        None
    }
}

/// The file `name` without its extension and the dot before it.
pub open spec fn stem(name: Seq<char>) -> Seq<char> {
    if last_dot(name) > 0 {
        name.take(last_dot(name))
    } else {
        name
    }
}

/// The cleaned name `cleaned` with the extension of the file `name` it was made from. An extension
/// of no characters leaves no dot.
pub open spec fn with_old_extension(cleaned: Seq<char>, name: Seq<char>) -> Seq<char> {
    match extension(name) {
        None => cleaned,
        Some(old) => if old.len() == 0 {
            stem(cleaned)
        } else {
            stem(cleaned) + "."@ + old
        },
    }
}

/// The path of a file in `folder`, which is empty or ends with the separator: its name is the
/// cleaned name `cleaned` with the extension of `name`. Nothing where no character is left.
pub open spec fn renamed(folder: Seq<char>, cleaned: Seq<char>, name: Seq<char>) -> Option<
    Seq<char>,
> {
    if cleaned.len() == 0 {
        None
    } else {
        Some(folder + with_old_extension(cleaned, name))
    }
}

/// The text of `s`.
pub open spec fn text_of(s: Option<String>) -> Option<Seq<char>> {
    match s {
        Some(s) => Some(s@),
        None => None,
    }
}

/// The index of the last dot in `name` behind its first character, or 0 where there is none.
fn last_dot_of(name: &Vec<char>) -> (r: usize)
    ensures
        r == last_dot(name@),
{
    let mut n: usize = name.len();
    assert(name@.take(n as int) =~= name@);
    while n > 1
        invariant
            n <= name@.len(),
            last_dot(name@) == last_dot(name@.take(n as int)),
        decreases n,
    {
        if name[n - 1] == '.' {
            return n - 1;
        }
        assert(name@.take(n as int).drop_last() =~= name@.take(n - 1));
        n -= 1;
    }
    0
}

/// The path of a file in `folder` whose name `name` was cleaned to `cleaned`.
pub fn renamed_to(folder: &str, cleaned: &str, name: &str) -> (r: Option<String>)
    ensures
        text_of(r) == renamed(folder@, cleaned@, name@),
{
    let chars = chars_of(name);
    let clean = chars_of(cleaned);
    if clean.len() == 0 {
        return None;
    }
    let n: usize = chars.len();
    let dot: usize = last_dot_of(&chars);
    if dot == 0 {
        return Some(folder.to_owned().concat(cleaned));
    }
    let clean_dot: usize = last_dot_of(&clean);
    proof {
        dot_is_inside(name@);
        dot_is_inside(cleaned@);
    }
    let stem_end: usize = if clean_dot > 0 {
        clean_dot
    } else {
        clean.len()
    };
    let stem = cleaned.substring_char(0, stem_end);
    assert(stem@ =~= self::stem(cleaned@));
    let named = folder.to_owned().concat(stem);
    if dot == n - 1 {
        assert(named@ =~= folder@ + self::stem(cleaned@));
        return Some(named);
    }
    let old = name.substring_char(dot + 1, n);
    assert(old@ =~= name@.skip(dot + 1));
    let r = named.concat(".").concat(old);
    assert(r@ =~= folder@ + (self::stem(cleaned@) + "."@ + old@));
    Some(r)
}

/// The path that a file in `folder` gets when it is to be called `file_name`: the folder stays, the
/// name is cleaned, and the extension that it had before it was cleaned is set again, with whatever
/// characters it holds. Nothing where no character of the name is left.
pub fn sanitize_name(folder: &str, file_name: &str) -> (r: Option<String>)
    ensures
        exists|cleaned: Seq<char>|
            is_sanitized_from(cleaned, file_name@) && text_of(r) == #[trigger] renamed(
                folder@,
                cleaned,
                file_name@,
            ),
{
    let cleaned = cleaned_name(file_name);
    let r = renamed_to(folder, cleaned.as_str(), file_name);
    assert(is_sanitized_from(cleaned@, file_name@) && text_of(r) == renamed(
        folder@,
        cleaned@,
        file_name@,
    ));
    r
}

/// The last dot stands in the name, and no dot stands behind it.
proof fn dot_is_inside(name: Seq<char>)
    ensures
        0 <= last_dot(name),
        last_dot(name) > 0 ==> last_dot(name) < name.len() && name[last_dot(name)] == '.',
        forall|i: int| last_dot(name) < i < name.len() ==> name[i] != '.',
    decreases name.len(),
{
    if name.len() > 1 && name.last() != '.' {
        let before = name.drop_last();
        dot_is_inside(before);
        assert forall|i: int| last_dot(name) < i < name.len() implies name[i] != '.' by {
            if i < before.len() {
                assert(before[i] == name[i]);
            }
        }
    }
}

/// The last dot is the one that no dot follows.
proof fn dot_is_at(name: Seq<char>, at: int)
    requires
        0 < at < name.len(),
        name[at] == '.',
        forall|i: int| at < i < name.len() ==> name[i] != '.',
    ensures
        last_dot(name) == at,
{
    dot_is_inside(name);
    if last_dot(name) < at {
        assert(name[at] != '.');
    }
}

/// A renamed file keeps its extension, unless that has no characters.
pub proof fn renamed_file_keeps_its_extension(cleaned: Seq<char>, name: Seq<char>)
    requires
        is_sanitized_from(cleaned, name),
        cleaned.len() > 0,
        extension(name) matches Some(old) ==> old.len() > 0,
    ensures
        extension(with_old_extension(cleaned, name)) == extension(name),
{
    reveal_strlit(".");
    dot_is_inside(name);
    dot_is_inside(cleaned);
    let r = with_old_extension(cleaned, name);
    match extension(name) {
        Some(old) => {
            let n = stem(cleaned).len() as int;
            assert forall|i: int| n < i < r.len() implies r[i] != '.' by {
                assert(r[i] == name[last_dot(name) + i - n]);
            }
            dot_is_at(r, n);
            assert(r.skip(n + 1) =~= old);
        },
        None => {
            no_dot_stays_no_dot(name);
            cleaned_is_a_beginning(cleaned, name);
            dot_is_inside(cleaned);
            if last_dot(cleaned) > 0 {
                assert(cleaned[last_dot(cleaned)] == legal_chars(name)[last_dot(cleaned)]);
            }
        },
    }
}

/// A file whose name was clean keeps its path, unless its extension has no characters.
pub proof fn clean_name_keeps_its_path(folder: Seq<char>, name: Seq<char>)
    requires
        name.len() > 0,
        extension(name) matches Some(old) ==> old.len() > 0,
    ensures
        renamed(folder, name, name) == Some(folder + name),
{
    reveal_strlit(".");
    dot_is_inside(name);
    assert(with_old_extension(name, name) =~= name);
}

/// Where no dot stands behind the first character, none does once characters are taken out.
proof fn no_dot_stays_no_dot(name: Seq<char>)
    requires
        forall|i: int| 0 < i < name.len() ==> name[i] != '.',
    ensures
        forall|i: int|
            0 < i < legal_chars(name).len() ==> #[trigger] legal_chars(name)[i] != '.',
    decreases name.len(),
{
    reveal(Seq::filter);
    if name.len() > 0 {
        let before = name.drop_last();
        assert forall|i: int| 0 < i < before.len() implies before[i] != '.' by {
            assert(name[i] != '.');
        }
        no_dot_stays_no_dot(before);
        before.lemma_filter_len(|c: char| !is_illegal(c));
        let left = legal_chars(before);
        let all = legal_chars(name);
        assert forall|i: int| 0 < i < all.len() implies #[trigger] all[i] != '.' by {
            if i < left.len() {
                assert(all[i] == left[i]);
            } else {
                assert(all[i] == name[name.len() - 1]);
            }
        }
    }
}

/// A cleaned name is a beginning of what is left of the name without its illegal characters.
proof fn cleaned_is_a_beginning(cleaned: Seq<char>, name: Seq<char>)
    requires
        is_sanitized_from(cleaned, name),
    ensures
        ({
            let left = legal_chars(name);
            cleaned.len() <= left.len() && forall|i: int|
                0 <= i < cleaned.len() ==> cleaned[i] == #[trigger] left[i]
        }),
{
    let legal = legal_part(name);
    shortened_is_a_beginning(legal);
    shortened_is_a_beginning(windows_part(legal));
    without_trailing_is_a_beginning(legal);
}

/// What is left of a name is a beginning of its legal part.
proof fn shortened_is_a_beginning(s: Seq<char>)
    ensures
        shortened(s).len() <= s.len(),
        shortened(s) == s.take(shortened(s).len() as int),
        byte_len(shortened(s)) <= 255,
    decreases s.len(),
{
    if !(s.len() == 0 || byte_len(s) <= 255) {
        shortened_is_a_beginning(s.drop_last());
        assert(s.drop_last().take(shortened(s).len() as int) =~= s.take(shortened(s).len() as int));
    } else {
        assert(s.take(s.len() as int) =~= s);
    }
}

proof fn without_trailing_is_a_beginning(s: Seq<char>)
    ensures
        without_trailing(s).len() <= s.len(),
        without_trailing(s) == s.take(without_trailing(s).len() as int),
    decreases s.len(),
{
    if s.len() > 0 && (s.last() == '.' || s.last() == ' ') {
        without_trailing_is_a_beginning(s.drop_last());
        assert(s.drop_last().take(without_trailing(s).len() as int) =~= s.take(
            without_trailing(s).len() as int,
        ));
    } else {
        assert(s.take(s.len() as int) =~= s);
    }
}

/// A cleaned name holds no illegal character and no more than 255 bytes, on every machine.
pub proof fn cleaned_name_is_legal(r: Seq<char>, name: Seq<char>)
    requires
        is_sanitized_from(r, name),
    ensures
        byte_len(r) <= 255,
        forall|i: int| 0 <= i < r.len() ==> !is_illegal(#[trigger] r[i]),
{
    broadcast use Seq::lemma_filter_pred;

    let legal = legal_part(name);
    shortened_is_a_beginning(legal);
    shortened_is_a_beginning(windows_part(legal));
    without_trailing_is_a_beginning(legal);
    assert forall|i: int| 0 <= i < r.len() implies !is_illegal(#[trigger] r[i]) by {
        assert(r[i] == legal[i]);
    }
}

/// A name that is legal on every machine stays as it is.
pub proof fn legal_name_stays(r: Seq<char>, name: Seq<char>)
    requires
        is_sanitized_from(r, name),
        forall|i: int| 0 <= i < name.len() ==> !is_illegal(#[trigger] name[i]),
        byte_len(name) <= 255,
        !is_reserved(name),
        name.len() > 0 ==> name.last() != '.' && name.last() != ' ',
    ensures
        r == name,
{
    nothing_to_take_out(name);
    if name.len() > 0 {
        assert(name[name.len() - 1] != '.');
    }
}

proof fn nothing_to_take_out(name: Seq<char>)
    requires
        forall|i: int| 0 <= i < name.len() ==> !is_illegal(#[trigger] name[i]),
    ensures
        legal_chars(name) == name,
    decreases name.len(),
{
    reveal(Seq::filter);
    if name.len() > 0 {
        assert forall|i: int| 0 <= i < name.drop_last().len() implies !is_illegal(
            #[trigger] name.drop_last()[i],
        ) by {
            assert(!is_illegal(name[i]));
        }
        nothing_to_take_out(name.drop_last());
        assert(name.drop_last().push(name.last()) =~= name);
    }
}

} // verus!
