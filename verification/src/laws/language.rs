//! Which language is spoken.

use crate::i18n::{self, Lang};
use crate::strings;
use vstd::prelude::*;

verus! {

/// Whether a tag has these two letters, in either case, as its language part.
pub open spec fn names_language(
    tag: Seq<char>,
    a: char,
    b: char,
    big_a: char,
    big_b: char,
) -> bool {
    &&& tag.len() >= 2
    &&& tag[0] == a || tag[0] == big_a
    &&& tag[1] == b || tag[1] == big_b
    &&& tag.len() > 2 ==> tag[2] == '_' || tag[2] == '-' || tag[2] == '.' || tag[2] == '@'
}

/// The language part of a tag is what stands before its first separator.
proof fn the_language_part_comes_first(tag: Seq<char>)
    ensures
        ({
            let part = i18n::primary_part(tag);
            &&& part.len() <= tag.len()
            &&& forall|i: int| 0 <= i < part.len() ==> #[trigger] part[i] == tag[i]
            &&& forall|i: int| 0 <= i < part.len() ==> !i18n::is_separator(#[trigger] part[i])
            &&& part.len() < tag.len() ==> i18n::is_separator(tag[part.len() as int])
        }),
    decreases tag.len(),
{
    if tag.len() > 0 && !i18n::is_separator(tag[0]) {
        let rest = tag.drop_first();
        the_language_part_comes_first(rest);
        let part = i18n::primary_part(tag);
        let more = i18n::primary_part(rest);
        assert(part =~= seq![tag[0]] + more);
        assert forall|i: int| 0 <= i < part.len() implies #[trigger] part[i] == tag[i]
            && !i18n::is_separator(part[i]) by {
            if i > 0 {
                assert(part[i] == more[i - 1]);
                assert(rest[i - 1] == tag[i]);
            }
        }
        if part.len() < tag.len() {
            assert(rest[more.len() as int] == tag[part.len() as int]);
        }
    }
}

/// A tag names Russian exactly if its language part is `ru`, and English exactly
/// if that is `en`, in either case, whatever follows it.
pub proof fn a_tag_names_its_language(tag: Seq<char>)
    ensures
        (i18n::lang_of_tag(tag) == Some(Lang::Ru)) == names_language(tag, 'r', 'u', 'R', 'U'),
        (i18n::lang_of_tag(tag) == Some(Lang::En)) == names_language(tag, 'e', 'n', 'E', 'N'),
{
    reveal_strlit("en");
    reveal_strlit("ru");
    the_language_part_comes_first(tag);
    let part = i18n::primary_part(tag);
    let lower = part.map_values(|c: char| i18n::ascii_lower(c));
    letters();
    assert(lower.len() == part.len());
    assert("en"@[0] != "ru"@[0]);
    if part.len() == 2 {
        assert(lower[0] == i18n::ascii_lower(tag[0])) by {
            assert(part[0] == tag[0]);
        }
        assert(lower[1] == i18n::ascii_lower(tag[1])) by {
            assert(part[1] == tag[1]);
        }
        small_letters(tag[0]);
        small_letters(tag[1]);
        assert((lower == "ru"@) == (lower[0] == 'r' && lower[1] == 'u')) by {
            if lower[0] == 'r' && lower[1] == 'u' {
                assert(lower =~= "ru"@);
            }
        }
        assert((lower == "en"@) == (lower[0] == 'e' && lower[1] == 'n')) by {
            if lower[0] == 'e' && lower[1] == 'n' {
                assert(lower =~= "en"@);
            }
        }
    } else {
        assert(lower != "ru"@ && lower != "en"@);
        if names_language(tag, 'r', 'u', 'R', 'U') || names_language(tag, 'e', 'n', 'E', 'N') {
            if part.len() < 2 {
                assert(i18n::is_separator(tag[part.len() as int]));
            } else {
                assert(part[2] == tag[2]);
            }
        }
    }
}

proof fn letters()
    ensures
        i18n::ascii_lower('R') == 'r',
        i18n::ascii_lower('U') == 'u',
        i18n::ascii_lower('E') == 'e',
        i18n::ascii_lower('N') == 'n',
{
}

proof fn small_letters(c: char)
    ensures
        (i18n::ascii_lower(c) == 'r') == (c == 'r' || c == 'R'),
        (i18n::ascii_lower(c) == 'u') == (c == 'u' || c == 'U'),
        (i18n::ascii_lower(c) == 'e') == (c == 'e' || c == 'E'),
        (i18n::ascii_lower(c) == 'n') == (c == 'n' || c == 'N'),
{
    letters();
    if 'A' <= c && c <= 'Z' {
        assert(i18n::ascii_lower(c) as int == c as int + 32);
    }
}

/// The configured language is spoken where its tag names one, and the session's
/// otherwise.
pub proof fn the_configured_language_is_spoken(tag: Seq<char>, system: Lang)
    ensures
        names_language(tag, 'r', 'u', 'R', 'U') ==> i18n::resolved(Some(tag), system) == Lang::Ru,
        names_language(tag, 'e', 'n', 'E', 'N') ==> i18n::resolved(Some(tag), system) == Lang::En,
        !names_language(tag, 'r', 'u', 'R', 'U') && !names_language(tag, 'e', 'n', 'E', 'N')
            ==> i18n::resolved(Some(tag), system) == system,
        i18n::resolved(None, system) == system,
{
    a_tag_names_its_language(tag);
}

/// Whether a variable of the environment says something.
pub open spec fn is_set(value: Option<Seq<char>>) -> bool {
    value is Some && value->0.len() > 0
}

/// The locale that a session runs in: the first of the three variables that says
/// something.
pub open spec fn locale(
    lc_all: Option<Seq<char>>,
    lc_messages: Option<Seq<char>>,
    lang: Option<Seq<char>>,
) -> Option<Seq<char>> {
    if is_set(lc_all) {
        lc_all
    } else if is_set(lc_messages) {
        lc_messages
    } else if is_set(lang) {
        lang
    } else {
        None
    }
}

proof fn the_first_set_is_the_locale(
    lc_all: Option<Seq<char>>,
    lc_messages: Option<Seq<char>>,
    lang: Option<Seq<char>>,
)
    ensures
        i18n::first_set(seq![lc_all, lc_messages, lang]) == locale(lc_all, lc_messages, lang),
{
    let three = seq![lc_all, lc_messages, lang];
    let two = three.drop_first();
    let one = two.drop_first();
    let none = one.drop_first();
    assert(two[0] == lc_messages && one[0] == lang);
    assert(i18n::first_set(none) is None);
    assert(i18n::first_set(one) == (if is_set(lang) {
        lang
    } else {
        None
    }));
    assert(i18n::first_set(two) == (if is_set(lc_messages) {
        lc_messages
    } else {
        i18n::first_set(one)
    }));
}

/// A session without a locale, or in one that asks for no translation, speaks
/// English whatever its list of languages says; any other speaks the first
/// language of that list that is known, or else that of its locale, or else
/// English.
pub proof fn a_session_speaks_by_list_then_locale(
    lc_all: Option<Seq<char>>,
    lc_messages: Option<Seq<char>>,
    lang: Option<Seq<char>>,
    language: Option<Seq<char>>,
)
    ensures
        ({
            let spoken = i18n::session_lang(lc_all, lc_messages, lang, language);
            let found = locale(lc_all, lc_messages, lang);
            &&& found is None ==> spoken == Lang::En
            &&& found is Some ==> {
                let name = found->0;
                let plain = name == "C"@ || name == "POSIX"@ || (name.len() >= 2 && name[0] == 'C'
                    && name[1] == '.');
                let listed = if language is Some {
                    i18n::first_known(language->0)
                } else {
                    None
                };
                &&& plain ==> spoken == Lang::En
                &&& !plain && listed is Some ==> spoken == listed->0
                &&& !plain && listed is None ==> spoken == (if names_language(
                    name,
                    'r',
                    'u',
                    'R',
                    'U',
                ) {
                    Lang::Ru
                } else {
                    Lang::En
                })
            }
        }),
{
    the_first_set_is_the_locale(lc_all, lc_messages, lang);
    let found = locale(lc_all, lc_messages, lang);
    if found is Some {
        a_tag_names_its_language(found->0);
        reveal_strlit("C.");
        let name = found->0;
        if name.len() >= 2 && name[0] == 'C' && name[1] == '.' {
            assert(name.take(2) =~= "C."@);
            assert(strings::begins_with(name, "C."@));
        }
        if strings::begins_with(name, "C."@) {
            assert("C."@[0] == name.take(2)[0] && "C."@[1] == name.take(2)[1]);
        }
    }
}

/// A list of languages is read from the left, one between two colons at a time:
/// the first that is known is meant.
pub proof fn a_list_is_read_from_the_left(first: Seq<char>, rest: Seq<char>)
    requires
        forall|i: int| 0 <= i < first.len() ==> #[trigger] first[i] != ':',
    ensures
        i18n::first_known(first) == i18n::lang_of_tag(first),
        i18n::first_known(first + seq![':'] + rest) == (if i18n::lang_of_tag(first) is Some {
            i18n::lang_of_tag(first)
        } else {
            i18n::first_known(rest)
        }),
{
    let whole = first + seq![':'] + rest;
    the_first_colon_is_found(first, 0, first.len() as int);
    assert(first.take(first.len() as int) =~= first);
    the_first_colon_is_found(whole, 0, first.len() as int);
    assert(whole.take(first.len() as int) =~= first);
    assert(whole.skip((first.len() + 1) as int) =~= rest);
}

proof fn the_first_colon_is_found(list: Seq<char>, from: int, at: int)
    requires
        0 <= from <= at <= list.len(),
        forall|i: int| from <= i < at ==> #[trigger] list[i] != ':',
        at < list.len() ==> list[at] == ':',
    ensures
        i18n::first_colon(list, from) == at,
    decreases at - from,
{
    if from < at {
        the_first_colon_is_found(list, from + 1, at);
    }
}

} // verus!
