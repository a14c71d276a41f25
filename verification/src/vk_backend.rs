//! What is chosen of a graphics device: memory types, queue families, devices and
//! extensions.

use crate::text::{chars_of, same_text};
use vstd::prelude::*;
use vstd::string::*;

verus! {

/// The flag of a queue family that can draw.
pub const GRAPHICS_QUEUE: u32 = 0x1;

/// Whether memory type `i` is allowed by the filter and has all the properties.
pub open spec fn memory_fits(type_filter: u32, required: u32, types: Seq<u32>, i: int) -> bool {
    (type_filter & (1u32 << (i as u32))) != 0 && (types[i] & required) == required
}

/// The first memory type that the filter allows and that has all the properties.
pub fn find_memory_type(type_filter: u32, required: u32, types: &Vec<u32>) -> (found: Option<u32>)
    requires
        types@.len() <= 32,
    ensures
        match found {
            Some(i) => i < types@.len() && memory_fits(type_filter, required, types@, i as int)
                && forall|k: int|
                0 <= k < i ==> !#[trigger] memory_fits(type_filter, required, types@, k),
            None => forall|k: int|
                0 <= k < types@.len() ==> !#[trigger] memory_fits(type_filter, required, types@, k),
        },
{
    let mut i: u32 = 0;
    while (i as usize) < types.len()
        invariant
            types@.len() <= 32,
            i <= types@.len(),
            forall|k: int|
                0 <= k < i ==> !#[trigger] memory_fits(type_filter, required, types@, k),
        decreases types@.len() - i,
    {
        let allowed = (type_filter & (1u32 << i)) != 0;
        let flags: u32 = types[i as usize];
        if allowed && (flags & required) == required {
            assert(memory_fits(type_filter, required, types@, i as int));
            return Some(i);
        }
        assert(!memory_fits(type_filter, required, types@, i as int));
        i += 1;
    }
    None
}

/// Whether a queue family can draw.
pub open spec fn can_draw(flags: u32) -> bool {
    (flags & GRAPHICS_QUEUE) == GRAPHICS_QUEUE
}

/// The first queue family that can draw.
pub fn graphics_queue_family(families: &Vec<u32>) -> (found: Result<u32, String>)
    requires
        families@.len() <= u32::MAX,
    ensures
        match found {
            Ok(i) => i < families@.len() && can_draw(families@[i as int]) && forall|k: int|
                0 <= k < i ==> !can_draw(#[trigger] families@[k]),
            Err(message) => message@ == "No graphics queue family found"@ && forall|k: int|
                0 <= k < families@.len() ==> !can_draw(#[trigger] families@[k]),
        },
{
    let mut i: usize = 0;
    while i < families.len()
        invariant
            i <= families.len(),
            families@.len() <= u32::MAX,
            forall|k: int| 0 <= k < i ==> !can_draw(#[trigger] families@[k]),
        decreases families.len() - i,
    {
        if (families[i] & GRAPHICS_QUEUE) == GRAPHICS_QUEUE {
            return Ok(i as u32);
        }
        i += 1;
    }
    Err("No graphics queue family found".to_owned())
}

/// The device to use: the first discrete one, or else the first. `discrete` tells of
/// each device whether it is.
pub fn choose_device(discrete: &Vec<bool>) -> (chosen: Result<usize, String>)
    ensures
        match chosen {
            Ok(i) => {
                &&& i < discrete@.len()
                &&& discrete@[i as int] || i == 0
                &&& forall|k: int| 0 <= k < i ==> !#[trigger] discrete@[k]
                &&& !discrete@[i as int] ==> forall|k: int|
                    0 <= k < discrete@.len() ==> !#[trigger] discrete@[k]
            },
            Err(message) => discrete@.len() == 0 && message@
                == "No Vulkan physical devices found"@,
        },
{
    if discrete.len() == 0 {
        return Err("No Vulkan physical devices found".to_owned());
    }
    let mut i: usize = 0;
    while i < discrete.len()
        invariant
            i <= discrete.len(),
            forall|k: int| 0 <= k < i ==> !#[trigger] discrete@[k],
        decreases discrete.len() - i,
    {
        if discrete[i] {
            return Ok(i);
        }
        i += 1;
    }
    Ok(0)
}

/// Whether a character parts the names in a list of extensions.
pub open spec fn is_separator(c: char) -> bool {
    c == ' ' || c == '\t' || c == '\n' || c == '\u{c}' || c == '\r'
}

/// The names in a list of extensions.
pub open spec fn words(text: Seq<char>) -> Seq<Seq<char>>
    decreases text.len(),
{
    if text.len() == 0 {
        Seq::empty()
    } else {
        let before = words(text.drop_last());
        if is_separator(text.last()) {
            before
        } else if text.len() == 1 || is_separator(text[text.len() - 2]) {
            before.push(seq![text.last()])
        } else {
            before.update(before.len() - 1, before.last().push(text.last()))
        }
    }
}

/// What a list of texts holds.
pub open spec fn texts(list: Seq<String>) -> Seq<Seq<char>> {
    list.map_values(|text: String| text@)
}

proof fn lemma_words_after_letter(text: Seq<char>)
    requires
        text.len() > 0,
        !is_separator(text.last()),
    ensures
        words(text).len() > 0,
    decreases text.len(),
{
    if text.len() > 1 && !is_separator(text[text.len() - 2]) {
        lemma_words_after_letter(text.drop_last());
    }
}

fn separator(c: char) -> (answer: bool)
    ensures
        answer == is_separator(c),
{
    c == ' ' || c == '\t' || c == '\n' || c == '\u{c}' || c == '\r'
}

/// The names in a list of extensions, parted by whitespace.
pub fn split_names(list: &str) -> (names: Vec<String>)
    ensures
        texts(names@) == words(list@),
{
    let chars = chars_of(list);
    let mut names: Vec<String> = Vec::new();
    let mut i: usize = 0;
    assert(texts(names@) =~= words(chars@.take(0)));
    while i < chars.len()
        invariant
            i <= chars.len(),
            texts(names@) == words(chars@.take(i as int)),
        decreases chars.len() - i,
    {
        let ghost seen = chars@.take(i as int);
        let ghost next = chars@.take(i + 1);
        assert(next.drop_last() =~= seen);
        let ghost before = names@;
        let c = chars[i];
        assert(next.last() == c);
        if !separator(c) {
            if i == 0 || separator(chars[i - 1]) {
                let mut name = String::new();
                name.push(c);
                names.push(name);
                assert(name@ =~= seq![c]);
                assert(texts(names@) =~= texts(before).push(seq![c]));
            } else {
                proof {
                    assert(seen.last() == chars@[i - 1]);
                    lemma_words_after_letter(seen);
                    assert(texts(before).len() == before.len());
                }
                let last: usize = names.len() - 1;
                let mut name = names[last].clone();
                name.push(c);
                names.set(last, name);
                assert(texts(before).last() == before[last as int]@);
                assert(texts(names@) =~= texts(before).update(
                    last as int,
                    texts(before).last().push(c),
                ));
            }
        }
        i += 1;
    }
    assert(chars@.take(i as int) =~= chars@);
    names
}

/// The names with one more, unless it is among them.
pub open spec fn with_name(names: Seq<Seq<char>>, name: Seq<char>) -> Seq<Seq<char>> {
    if names.contains(name) {
        names
    } else {
        names.push(name)
    }
}

/// Add a name unless it is there.
pub fn add_missing(names: &mut Vec<String>, name: &str)
    ensures
        texts(final(names)@) == with_name(texts(old(names)@), name@),
{
    let ghost before = names@;
    let mut i: usize = 0;
    while i < names.len()
        invariant
            i <= names.len(),
            names@ == before,
            forall|k: int| 0 <= k < i ==> (#[trigger] before[k])@ != name@,
        decreases names.len() - i,
    {
        if same_text(names[i].as_str(), name) {
            assert(texts(before)[i as int] == name@);
            return;
        }
        i += 1;
    }
    assert(!texts(before).contains(name@)) by {
        if texts(before).contains(name@) {
            let k = texts(before).index_of(name@);
            assert(before[k]@ == name@);
        }
    }
    let owned = name.to_owned();
    names.push(owned);
    assert(texts(names@) =~= texts(before).push(name@));
}

/// The instance extensions to enable: those that the XR runtime lists, and those of
/// the mirror window's surface.
pub fn instance_extensions(required: &str) -> (names: Vec<String>)
    ensures
        texts(names@) == with_name(
            with_name(words(required@), "VK_KHR_surface"@),
            "VK_KHR_win32_surface"@,
        ),
{
    let mut names = split_names(required);
    add_missing(&mut names, "VK_KHR_surface");
    add_missing(&mut names, "VK_KHR_win32_surface");
    names
}

/// The device extensions to enable: those that the XR runtime lists, and swapchains.
pub fn device_extensions(required: &str) -> (names: Vec<String>)
    ensures
        texts(names@) == with_name(words(required@), "VK_KHR_swapchain"@),
{
    let mut names = split_names(required);
    add_missing(&mut names, "VK_KHR_swapchain");
    names
}

/// Adding a name that is missing keeps all others in place and adds nothing twice.
pub proof fn law_added_name_is_there(names: Seq<Seq<char>>, name: Seq<char>)
    ensures
        with_name(names, name).contains(name),
        with_name(with_name(names, name), name) == with_name(names, name),
        forall|i: int| 0 <= i < names.len() ==> #[trigger] with_name(names, name)[i] == names[i],
{
    if !names.contains(name) {
        assert(names.push(name)[names.len() as int] == name);
    }
}

/// A memory type fits where the filter has the bit of its number and where it has every bit
/// that is required.
pub proof fn law_memory_goes_by_bits(
    type_filter: u32,
    required: u32,
    types: Seq<u32>,
    i: u32,
    bit: u32,
)
    requires
        i < 32,
        bit < 32,
    ensures
        memory_fits(type_filter, required, types, i as int) ==> (type_filter >> i) % 2 == 1,
        memory_fits(type_filter, required, types, i as int) && (required >> bit) % 2 == 1 ==> (
        types[i as int] >> bit) % 2 == 1,
        (type_filter >> i) % 2 == 1 && types[i as int] == required ==> memory_fits(
            type_filter,
            required,
            types,
            i as int,
        ),
        (type_filter >> i) % 2 == 1 && required == 0 ==> memory_fits(
            type_filter,
            required,
            types,
            i as int,
        ),
{
    let flags = types[i as int];
    assert((type_filter & (1u32 << i)) != 0 <==> (type_filter >> i) % 2 == 1) by (bit_vector)
        requires
            i < 32,
    ;
    assert((flags & required) == required && (required >> bit) % 2 == 1 ==> (flags >> bit) % 2 == 1)
        by (bit_vector)
        requires
            bit < 32,
    ;
    assert((required & required) == required) by (bit_vector);
    assert((flags & 0u32) == 0) by (bit_vector);
}

/// More properties of a memory type never make it fit less.
pub proof fn law_more_properties_fit(
    type_filter: u32,
    required: u32,
    types: Seq<u32>,
    more: u32,
    i: int,
)
    requires
        0 <= i < types.len(),
        memory_fits(type_filter, required, types, i),
    ensures
        memory_fits(type_filter, required, types.update(i, types[i] | more), i),
{
    let flags = types[i];
    assert((flags & required) == required ==> ((flags | more) & required) == required)
        by (bit_vector);
}

/// A queue family can draw exactly where the lowest bit of its flags is set.
pub proof fn law_drawing_is_the_lowest_bit(flags: u32)
    ensures
        can_draw(flags) <==> flags % 2 == 1,
{
    assert((flags & 1u32) == 1 <==> flags % 2 == 1) by (bit_vector);
}

/// Names are parted by spaces, tabs, line feeds, form feeds and carriage returns.
pub proof fn law_separators(c: char)
    ensures
        is_separator(c) <==> c as int == 0x20 || c as int == 0x9 || c as int == 0xA || c as int
            == 0xC || c as int == 0xD,
{
}

/// A text without separators is one name, and the names on both sides of a separator are
/// those of the one side and then those of the other.
pub proof fn law_names_stand_between_separators(
    name: Seq<char>,
    first: Seq<char>,
    separator: char,
    second: Seq<char>,
)
    requires
        name.len() > 0,
        forall|i: int| 0 <= i < name.len() ==> !is_separator(#[trigger] name[i]),
        is_separator(separator),
    ensures
        words(name) == seq![name],
        words(first + seq![separator] + second) == words(first) + words(second),
        words(Seq::empty()).len() == 0,
{
    lemma_one_name(name);
    lemma_parted_names(first, separator, second);
}

proof fn lemma_one_name(name: Seq<char>)
    requires
        name.len() > 0,
        forall|i: int| 0 <= i < name.len() ==> !is_separator(#[trigger] name[i]),
    ensures
        words(name) == seq![name],
    decreases name.len(),
{
    let rest = name.drop_last();
    assert(!is_separator(name[name.len() - 1]));
    if rest.len() > 0 {
        assert forall|i: int| 0 <= i < rest.len() implies !is_separator(#[trigger] rest[i]) by {
            assert(rest[i] == name[i]);
        }
        lemma_one_name(rest);
        assert(!is_separator(name[name.len() - 2]));
        assert(rest.push(name.last()) =~= name);
        assert(words(name) =~= seq![name]);
    } else {
        assert(words(rest).len() == 0);
        assert(seq![name.last()] =~= name);
        assert(words(name) =~= seq![name]);
    }
}

proof fn lemma_parted_names(first: Seq<char>, separator: char, second: Seq<char>)
    requires
        is_separator(separator),
    ensures
        words(first + seq![separator] + second) == words(first) + words(second),
    decreases second.len(),
{
    let all = first + seq![separator] + second;
    if second.len() == 0 {
        assert(all =~= first.push(separator));
        assert(all.drop_last() =~= first);
        assert(words(first) + words(second) =~= words(first));
    } else {
        let rest = second.drop_last();
        lemma_parted_names(first, separator, rest);
        assert(all.drop_last() =~= first + seq![separator] + rest);
        assert(all.last() == second.last());
        if second.len() == 1 {
            assert(all[all.len() - 2] == separator);
        } else {
            assert(all[all.len() - 2] == second[second.len() - 2]);
            if !is_separator(second[second.len() - 2]) {
                assert(rest.last() == second[second.len() - 2]);
                lemma_words_after_letter(rest);
            }
        }
        assert(words(all) =~= words(first) + words(second));
    }
}

/// A name that is there is not added again, and one that is missing comes last.
pub proof fn law_missing_names_come_last(names: Seq<Seq<char>>, name: Seq<char>)
    ensures
        names.contains(name) ==> with_name(names, name) == names,
        !names.contains(name) ==> with_name(names, name).len() == names.len() + 1
            && with_name(names, name).last() == name,
{
}

} // verus!
