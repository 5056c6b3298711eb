//! Files that hold settings, a key and a value on each line.

use vstd::prelude::*;
use crate::basics::{is_blank, trimming_finds_the_text, trimming_takes_the_ends_off};
use crate::text::{chars_of, contains_text, is_space, text_between, trim, trimmed};

verus! {

/// Where a character first stands in a text, or the length of the text where it does not occur.
pub open spec fn first_place(text: Seq<char>, c: char) -> nat
    decreases text.len(),
{
    if text.len() == 0 || text[0] == c {
        0
    } else {
        1 + first_place(text.drop_first(), c)
    }
}

/// What stands before a character and what stands behind it, where it first occurs.
pub open spec fn cut_at(text: Seq<char>, c: char) -> Option<(Seq<char>, Seq<char>)> {
    let place = first_place(text, c) as int;
    if place < text.len() {
        Some((text.take(place), text.skip(place + 1)))
    } else {
        None
    }
}

/// The place that is found holds the character, and no place before it does.
pub proof fn first_place_found(text: Seq<char>, c: char)
    ensures
        first_place(text, c) <= text.len(),
        first_place(text, c) < text.len() ==> text[first_place(text, c) as int] == c,
        forall|i: int| 0 <= i < first_place(text, c) ==> #[trigger] text[i] != c,
    decreases text.len(),
{
    if text.len() > 0 && text[0] != c {
        let rest = text.drop_first();
        first_place_found(rest, c);
        assert forall|i: int| 0 <= i < first_place(text, c) implies #[trigger] text[i] != c by {
            if i > 0 {
                assert(text[i] == rest[i - 1]);
            }
        }
    }
}

/// Cuts a text in two where a character first occurs.
pub fn split_once(text: &str, c: char) -> (r: Option<(String, String)>)
    ensures
        r.deep_view() == cut_at(text@, c),
{
    let chars = chars_of(text);
    let mut place: usize = 0;
    while place < chars.len() && chars[place] != c
        invariant
            place <= chars@.len(),
            forall|i: int| 0 <= i < place ==> #[trigger] chars@[i] != c,
        decreases chars@.len() - place,
    {
        place = place + 1;
    }
    proof {
        first_place_found(text@, c);
    }
    assert(place == first_place(text@, c));
    if place == chars.len() {
        return None;
    }
    assert(chars@.subrange(0, place as int) =~= text@.take(place as int));
    assert(chars@.subrange(place + 1, chars@.len() as int) =~= text@.skip(place + 1));
    Some((text_between(&chars, 0, place), text_between(&chars, place + 1, chars.len())))
}

/// The setting on a line, if there is one: not on an empty line, nor on one that starts with `#`.
pub open spec fn setting_on(line: Seq<char>) -> Option<(Seq<char>, Seq<char>)> {
    let line = trimmed(line);
    if line.len() == 0 || line[0] == '#' {
        None
    } else {
        match cut_at(line, '=') {
            Some((key, value)) => Some((trimmed(key), trimmed(value))),
            None => None,
        }
    }
}

/// The setting on a line as a sequence of one, or of none.
pub open spec fn settings_on(line: Seq<char>) -> Seq<(Seq<char>, Seq<char>)> {
    match setting_on(line) {
        Some(setting) => seq![setting],
        None => Seq::empty(),
    }
}

/// The settings in a file, in the order of their lines.
pub open spec fn settings_in(content: Seq<char>) -> Seq<(Seq<char>, Seq<char>)>
    decreases content.len(),
    via settings_in_ends
{
    match cut_at(content, '\n') {
        Some((line, rest)) => settings_on(line) + settings_in(rest),
        None => settings_on(content),
    }
}

#[via_fn]
proof fn settings_in_ends(content: Seq<char>) {
    first_place_found(content, '\n');
}

fn read_setting(line: &str) -> (r: Option<(String, String)>)
    ensures
        r.deep_view() == setting_on(line@),
{
    let line = trim(line);
    let chars = chars_of(line.as_str());
    if chars.len() == 0 || chars[0] == '#' {
        return None;
    }
    match split_once(line.as_str(), '=') {
        Some((key, value)) => Some((trim(key.as_str()), trim(value.as_str()))),
        None => None,
    }
}

fn add_setting(settings: &mut Vec<(String, String)>, line: &str)
    ensures
        final(settings).deep_view() == old(settings).deep_view() + settings_on(line@),
{
    let ghost before = settings.deep_view();
    match read_setting(line) {
        Some(setting) => {
            let ghost model = setting.deep_view();
            settings.push(setting);
            assert(settings.deep_view() =~= before + seq![model]);
        },
        None => {
            assert(before =~= before + Seq::empty());
        },
    }
}

/// Reads the settings in a file.
pub fn parse_dotenv(content: &str) -> (r: Vec<(String, String)>)
    ensures
        r.deep_view() == settings_in(content@),
{
    let mut settings: Vec<(String, String)> = Vec::new();
    let mut rest = content.to_owned();
    assert(settings.deep_view() + settings_in(rest@) =~= settings_in(content@));
    loop
        invariant
            settings.deep_view() + settings_in(rest@) == settings_in(content@),
        decreases rest@.len(),
    {
        match split_once(rest.as_str(), '\n') {
            Some((line, more)) => {
                let ghost before = settings.deep_view();
                proof {
                    first_place_found(rest@, '\n');
                }
                add_setting(&mut settings, line.as_str());
                assert(settings.deep_view() + settings_in(more@) =~= before + (settings_on(line@)
                    + settings_in(more@)));
                rest = more;
            },
            None => {
                add_setting(&mut settings, rest.as_str());
                return settings;
            },
        }
    }
}

/// The settings of two files, one behind the other with a line break between them, are those of the
/// first and then those of the second.
pub proof fn settings_stand_by_lines(first: Seq<char>, second: Seq<char>)
    ensures
        settings_in(first + seq!['\n'] + second) == settings_in(first) + settings_in(second),
    decreases first.len(),
{
    let whole = first + seq!['\n'] + second;
    let place = first_place(first, '\n') as int;
    first_place_found(first, '\n');
    first_place_found(whole, '\n');
    assert(first_place(whole, '\n') == place) by {
        let found = first_place(whole, '\n') as int;
        assert(whole[place] == '\n');
        if found < place {
            assert(whole[found] == first[found]);
        }
    }
    assert(whole.take(place) =~= first.take(place));
    if place < first.len() {
        let rest = first.skip(place + 1);
        settings_stand_by_lines(rest, second);
        assert(whole.skip(place + 1) =~= rest + seq!['\n'] + second);
        assert(settings_in(whole) =~= settings_in(first) + settings_in(second));
    } else {
        assert(first.take(place) =~= first);
        assert(whole.skip(place + 1) =~= second);
    }
}

/// A line that is empty, or that starts with `#`, holds no setting.
pub proof fn comments_are_skipped(line: Seq<char>)
    requires
        trimmed(line).len() == 0 || trimmed(line)[0] == '#',
        !line.contains('\n'),
    ensures
        settings_in(line) == Seq::<(Seq<char>, Seq<char>)>::empty(),
{
    first_place_found(line, '\n');
    if first_place(line, '\n') < line.len() {
        assert(line.contains('\n'));
    }
}

/// A line with a key, an equals sign and a value holds that setting, whatever whitespace stands around
/// them. The value may hold further equals signs.
pub proof fn setting_is_read(
    lead: Seq<char>,
    key: Seq<char>,
    before: Seq<char>,
    behind: Seq<char>,
    value: Seq<char>,
    trail: Seq<char>,
)
    requires
        is_blank(lead),
        is_blank(before),
        is_blank(behind),
        is_blank(trail),
        key.len() > 0,
        key[0] != '#',
        !key.contains('='),
        !is_space(key[0]) && !is_space(key.last()),
        value.len() > 0 ==> !is_space(value[0]) && !is_space(value.last()),
        !(lead + key + before + seq!['='] + behind + value + trail).contains('\n'),
    ensures
        settings_in(lead + key + before + seq!['='] + behind + value + trail) == seq![(key, value)],
{
    let line = lead + key + before + seq!['='] + behind + value + trail;
    first_place_found(line, '\n');
    if first_place(line, '\n') < line.len() {
        assert(line.contains('\n'));
    }
    let tail = if value.len() > 0 {
        behind + value
    } else {
        Seq::empty()
    };
    let core = key + before + seq!['='] + tail;
    if value.len() > 0 {
        assert(line =~= lead + core + trail);
        assert(core.last() == value.last());
        trimming_finds_the_text(lead, core, trail);
    } else {
        assert(line =~= lead + core + (behind + trail));
        assert(is_blank(behind + trail));
        assert(core.last() == '=');
        trimming_finds_the_text(lead, core, behind + trail);
    }
    assert(core[0] == key[0]);
    let place = (key + before).len() as int;
    first_place_found(core, '=');
    assert(core[place] == '=');
    let found = first_place(core, '=') as int;
    if found < key.len() {
        assert(core[found] == key[found]);
        assert(key.contains(key[found]));
    } else if found < place {
        assert(core[found] == before[found - key.len()]);
        assert(is_space('='));
    }
    assert(core.take(place) =~= Seq::<char>::empty() + key + before);
    trimming_finds_the_text(Seq::empty(), key, before);
    assert(core.skip(place + 1) =~= tail);
    if value.len() > 0 {
        assert(tail =~= behind + value + Seq::<char>::empty());
        trimming_finds_the_text(behind, value, Seq::empty());
    } else {
        assert(tail =~= Seq::<char>::empty() + value + Seq::<char>::empty());
        trimming_finds_the_text(Seq::empty(), value, Seq::empty());
    }
}

/// A line without an equals sign holds no setting.
pub proof fn line_without_sign_is_skipped(line: Seq<char>)
    requires
        !line.contains('='),
        !line.contains('\n'),
    ensures
        settings_in(line) == Seq::<(Seq<char>, Seq<char>)>::empty(),
{
    first_place_found(line, '\n');
    if first_place(line, '\n') < line.len() {
        assert(line.contains('\n'));
    }
    let core = trimmed(line);
    trimming_takes_the_ends_off(line);
    let (lead, trail) = choose|lead: Seq<char>, trail: Seq<char>|
        is_blank(lead) && is_blank(trail) && line == #[trigger] (lead + core + trail);
    first_place_found(core, '=');
    let place = first_place(core, '=') as int;
    if place < core.len() {
        assert(line[lead.len() + place] == '=');
    }
}

/// A line that starts with the equals sign sets the empty key.
pub proof fn empty_key_is_read(lead: Seq<char>, behind: Seq<char>, value: Seq<char>, trail: Seq<char>)
    requires
        is_blank(lead),
        is_blank(behind),
        is_blank(trail),
        value.len() > 0,
        !is_space(value[0]) && !is_space(value.last()),
        !(lead + seq!['='] + behind + value + trail).contains('\n'),
    ensures
        settings_in(lead + seq!['='] + behind + value + trail) == seq![
            (Seq::<char>::empty(), value),
        ],
{
    let line = lead + seq!['='] + behind + value + trail;
    first_place_found(line, '\n');
    if first_place(line, '\n') < line.len() {
        assert(line.contains('\n'));
    }
    let core = seq!['='] + behind + value;
    assert(line =~= lead + core + trail);
    assert(core.last() == value.last());
    trimming_finds_the_text(lead, core, trail);
    assert(first_place(core, '=') == 0);
    assert(core.take(0) =~= Seq::<char>::empty());
    assert(core.skip(1) =~= behind + value + Seq::<char>::empty());
    trimming_finds_the_text(behind, value, Seq::empty());
}

// ---- Which settings take effect ----

/// Whether a key is among those of some settings.
pub open spec fn is_named(settings: Seq<(Seq<char>, Seq<char>)>, key: Seq<char>) -> bool {
    exists|i: int| 0 <= i < settings.len() && (#[trigger] settings[i]).0 == key
}

/// The first setting of each key, but for the keys that have a value already.
pub open spec fn first_unset(
    settings: Seq<(Seq<char>, Seq<char>)>,
    known: Seq<Seq<char>>,
) -> Seq<(Seq<char>, Seq<char>)>
    decreases settings.len(),
{
    if settings.len() == 0 {
        Seq::empty()
    } else {
        let before = settings.drop_last();
        let last = settings.last();
        if known.contains(last.0) || is_named(before, last.0) {
            first_unset(before, known)
        } else {
            first_unset(before, known).push(last)
        }
    }
}

/// A key is set where the settings name it and it has no value yet, and to the value of the first
/// setting that names it. No key is set twice.
pub proof fn keys_are_set_once(
    settings: Seq<(Seq<char>, Seq<char>)>,
    known: Seq<Seq<char>>,
    key: Seq<char>,
)
    ensures
        is_named(first_unset(settings, known), key) == (is_named(settings, key) && !known.contains(
            key,
        )),
        forall|i: int, j: int|
            0 <= i < j < first_unset(settings, known).len() ==> (#[trigger] first_unset(
                settings,
                known,
            )[i]).0 != (#[trigger] first_unset(settings, known)[j]).0,
        forall|i: int|
            0 <= i < settings.len() && (#[trigger] settings[i]).0 == key && !known.contains(key)
                && !is_named(settings.take(i), key) ==> first_unset(settings, known).contains(
                settings[i],
            ),
    decreases settings.len(),
{
    if settings.len() > 0 {
        let before = settings.drop_last();
        let last = settings.last();
        let earlier = first_unset(before, known);
        let now = first_unset(settings, known);
        keys_are_set_once(before, known, key);
        keys_are_set_once(before, known, last.0);
        assert(settings =~= before.push(last));
        named_behind(before, last, key);
        named_behind(earlier, last, key);
        assert forall|i: int, j: int| 0 <= i < j < now.len() implies (#[trigger] now[i]).0 != (
        #[trigger] now[j]).0 by {
            if j == earlier.len() {
                assert(earlier[i].0 != last.0);
            }
        }
        assert forall|i: int|
            0 <= i < settings.len() && (#[trigger] settings[i]).0 == key && !known.contains(key)
                && !is_named(settings.take(i), key) implies now.contains(settings[i]) by {
            if i < before.len() {
                assert(before[i] == settings[i]);
                assert(before.take(i) =~= settings.take(i));
                let k = choose|k: int| 0 <= k < earlier.len() && earlier[k] == before[i];
                assert(now[k] == settings[i]);
            } else {
                assert(settings.take(i) =~= before);
                assert(now[earlier.len() as int] == last);
            }
        }
    }
}

proof fn named_behind(
    settings: Seq<(Seq<char>, Seq<char>)>,
    last: (Seq<char>, Seq<char>),
    key: Seq<char>,
)
    ensures
        is_named(settings.push(last), key) == (is_named(settings, key) || last.0 == key),
{
    let all = settings.push(last);
    if is_named(settings, key) {
        let i = choose|i: int| 0 <= i < settings.len() && (#[trigger] settings[i]).0 == key;
        assert(all[i].0 == key);
    }
    if is_named(all, key) {
        let i = choose|i: int| 0 <= i < all.len() && (#[trigger] all[i]).0 == key;
        if i < settings.len() {
            assert(settings[i].0 == key);
        }
    }
    assert(all[settings.len() as int] == last);
}

fn names_before(settings: &Vec<(String, String)>, end: usize, key: &str) -> (r: bool)
    requires
        end <= settings@.len(),
    ensures
        r == is_named(settings.deep_view().take(end as int), key@),
{
    let ghost before = settings.deep_view().take(end as int);
    let mut i: usize = 0;
    while i < end
        invariant
            i <= end <= settings@.len(),
            before == settings.deep_view().take(end as int),
            forall|j: int| 0 <= j < i ==> (#[trigger] before[j]).0 != key@,
        decreases end - i,
    {
        assert(before[i as int].0 == settings@[i as int].0@);
        if *settings[i].0.as_str() == *key {
            return true;
        }
        i = i + 1;
    }
    false
}

/// Picks the settings that take effect where some keys have a value already: of each other key the
/// first one.
pub fn settings_to_set(settings: &Vec<(String, String)>, known: &Vec<String>) -> (r: Vec<
    (String, String),
>)
    ensures
        r.deep_view() == first_unset(settings.deep_view(), known.deep_view()),
{
    let ghost all = settings.deep_view();
    let mut r: Vec<(String, String)> = Vec::new();
    let mut i: usize = 0;
    assert(r.deep_view() =~= Seq::<(Seq<char>, Seq<char>)>::empty());
    while i < settings.len()
        invariant
            i <= settings@.len(),
            all == settings.deep_view(),
            r.deep_view() == first_unset(all.take(i as int), known.deep_view()),
        decreases settings@.len() - i,
    {
        let setting = &settings[i];
        let ghost before = r.deep_view();
        assert(all.take(i + 1).drop_last() =~= all.take(i as int));
        assert(all.take(i + 1).last() == (setting.0@, setting.1@));
        if !contains_text(known, setting.0.as_str()) && !names_before(
            settings,
            i,
            setting.0.as_str(),
        ) {
            r.push((setting.0.clone(), setting.1.clone()));
            assert(r.deep_view() =~= before.push((setting.0@, setting.1@)));
        }
        i = i + 1;
    }
    assert(all.take(all.len() as int) =~= all);
    r
}

} // verus!
