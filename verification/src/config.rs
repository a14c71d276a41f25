//! Persistent configuration for ClearXR Shell.
//!
//! The configuration is kept as TOML by the application. Whatever cannot be
//! read falls back to the defaults here.

use crate::geometry::ONE_BITS;
use crate::panel::{EYE_HEIGHT, PANEL_DEPTH, PANEL_OPACITY, THEATER_DISTANCE, THEATER_SCALE};
use crate::scalar::Scalar;
use crate::text::{joined, same_text};
use vstd::prelude::*;

verus! {

/// 0.8, the default volume.
pub const DEFAULT_VOLUME: u32 = 0x3f4c_cccd;

/// Pinning mode of the main panel.
#[derive(Clone, Copy, Debug, PartialEq, Eq, Structural)]
pub enum AnchorMode {
    World,
    Controller,
    Wrist,
    Theater,
    Head,
}

impl Default for AnchorMode {
    fn default() -> (mode: Self)
        ensures
            mode == AnchorMode::World,
    {
        AnchorMode::World
    }
}

/// Top-level configuration.
#[derive(Clone, Debug)]
pub struct Config {
    pub panel: PanelConfig,
    pub audio: AudioConfig,
    pub display: DisplayConfig,
    pub shell: ShellConfig,
}

/// Panel placement and behavior.
#[derive(Clone, Copy, Debug)]
pub struct PanelConfig {
    /// Panel center position in world space [x, y, z].
    pub position: [Scalar; 3],
    /// Panel width in world units.
    pub width: Scalar,
    /// Panel height in world units.
    pub height: Scalar,
    /// Panel opacity (0.0 - 1.0).
    pub opacity: Scalar,
    /// Pinning mode.
    pub anchor: AnchorMode,
    /// Theater mode distance.
    pub theater_distance: Scalar,
    /// Theater mode scale multiplier.
    pub theater_scale: Scalar,
}

/// Audio settings.
#[derive(Clone, Debug)]
pub struct AudioConfig {
    /// Master volume (0.0 - 1.0).
    pub volume: Scalar,
    /// Output device name (empty = system default).
    pub output_device: String,
    /// Microphone enabled.
    pub mic_enabled: bool,
}

/// Display settings.
#[derive(Clone, Debug)]
pub struct DisplayConfig {
    /// Show FPS counter.
    pub show_fps: bool,
    /// Show boundary/guardian.
    pub show_boundary: bool,
    /// UI theme name.
    pub theme: String,
}

/// Shell behavior.
#[derive(Clone, Debug)]
pub struct ShellConfig {
    /// Default view on startup: "launcher", "desktop".
    pub default_view: String,
    /// Enable haptic feedback.
    pub haptics_enabled: bool,
}

impl PanelConfig {
    /// The panel starts at eye height in front of the user, in world space.
    pub open spec fn is_default(self) -> bool {
        &&& self.position@ == seq![
            Scalar { bits: 0 },
            Scalar { bits: EYE_HEIGHT },
            Scalar { bits: PANEL_DEPTH },
        ]
        &&& self.width.bits == EYE_HEIGHT
        &&& self.height.bits == ONE_BITS
        &&& self.opacity.bits == PANEL_OPACITY
        &&& self.anchor == AnchorMode::World
        &&& self.theater_distance.bits == THEATER_DISTANCE
        &&& self.theater_scale.bits == THEATER_SCALE
    }
}

impl AudioConfig {
    /// The system's output device at the default volume, without microphone.
    pub open spec fn is_default(self) -> bool {
        &&& self.volume.bits == DEFAULT_VOLUME
        &&& self.output_device@.len() == 0
        &&& !self.mic_enabled
    }
}

impl DisplayConfig {
    /// Everything is shown.
    pub open spec fn is_default(self) -> bool {
        &&& self.show_fps
        &&& self.show_boundary
        &&& self.theme@ == "default"@
    }
}

impl ShellConfig {
    /// The launcher with haptic feedback.
    pub open spec fn is_default(self) -> bool {
        &&& self.default_view@ == "launcher"@
        &&& self.haptics_enabled
    }
}

impl Default for PanelConfig {
    fn default() -> (config: Self)
        ensures
            config.is_default(),
    {
        let position = [
            Scalar { bits: 0 },
            Scalar { bits: EYE_HEIGHT },
            Scalar { bits: PANEL_DEPTH },
        ];
        PanelConfig {
            position,
            width: Scalar { bits: EYE_HEIGHT },
            height: Scalar { bits: ONE_BITS },
            opacity: Scalar { bits: PANEL_OPACITY },
            anchor: AnchorMode::default(),
            theater_distance: Scalar { bits: THEATER_DISTANCE },
            theater_scale: Scalar { bits: THEATER_SCALE },
        }
    }
}

impl Default for AudioConfig {
    fn default() -> (config: Self)
        ensures
            config.is_default(),
    {
        AudioConfig {
            volume: Scalar { bits: DEFAULT_VOLUME },
            output_device: String::new(),
            mic_enabled: false,
        }
    }
}

impl Default for DisplayConfig {
    fn default() -> (config: Self)
        ensures
            config.is_default(),
    {
        DisplayConfig { show_fps: true, show_boundary: true, theme: "default".to_owned() }
    }
}

impl Default for ShellConfig {
    fn default() -> (config: Self)
        ensures
            config.is_default(),
    {
        ShellConfig { default_view: "launcher".to_owned(), haptics_enabled: true }
    }
}

impl Default for Config {
    fn default() -> (config: Self)
        ensures
            config.is_default(),
    {
        Config {
            panel: PanelConfig::default(),
            audio: AudioConfig::default(),
            display: DisplayConfig::default(),
            shell: ShellConfig::default(),
        }
    }
}

/// What was found where the configuration is kept.
#[derive(Clone, Debug)]
pub enum StoredConfig {
    /// There is no place to keep a configuration.
    NoDirectory,
    /// The file could not be read.
    Unreadable,
    /// The file holds no configuration.
    Malformed,
    /// The configuration in the file.
    Parsed(Config),
}

/// What stands under a name at the top of a configuration file.
#[derive(Clone, Debug)]
pub enum SectionBody<V> {
    /// A table of named values.
    Table(Vec<(String, V)>),
    /// A single value.
    Single(V),
}

/// A part of a configuration file.
#[derive(Clone, Debug)]
pub struct Section<V> {
    pub name: String,
    pub body: SectionBody<V>,
}

/// What a part of a configuration file holds, by the contents of its names.
pub ghost enum SectionView<V> {
    Table(Seq<(Seq<char>, V)>),
    Single(V),
}

/// Named values, by the contents of their names.
pub open spec fn entry_views<V>(entries: Seq<(String, V)>) -> Seq<(Seq<char>, V)> {
    entries.map_values(|entry: (String, V)| (entry.0@, entry.1))
}

impl<V> SectionBody<V> {
    /// What the part holds.
    pub open spec fn view(self) -> SectionView<V> {
        match self {
            SectionBody::Table(entries) => SectionView::Table(entry_views(entries@)),
            SectionBody::Single(value) => SectionView::Single(value),
        }
    }
}

/// The parts of a configuration file, by the contents of their names.
pub open spec fn section_views<V>(sections: Seq<Section<V>>) -> Seq<(Seq<char>, SectionView<V>)> {
    sections.map_values(|section: Section<V>| (section.name@, section.body@))
}

/// The place of the first value of this name, or the length.
pub open spec fn place_of<T>(named: Seq<(Seq<char>, T)>, name: Seq<char>) -> int
    decreases named.len(),
{
    if named.len() == 0 || named[0].0 == name {
        0
    } else {
        1 + place_of(named.drop_first(), name)
    }
}

/// Whether there is a value of this name.
pub open spec fn has_name<T>(named: Seq<(Seq<char>, T)>, name: Seq<char>) -> bool {
    place_of(named, name) < named.len()
}

/// The first value of this name.
pub open spec fn value_of<T>(named: Seq<(Seq<char>, T)>, name: Seq<char>) -> T {
    named[place_of(named, name)].1
}

/// The values with one more: in the place of that of its name, or at the end.
pub open spec fn with_value<T>(
    named: Seq<(Seq<char>, T)>,
    name: Seq<char>,
    value: T,
) -> Seq<(Seq<char>, T)> {
    if has_name(named, name) {
        named.update(place_of(named, name), (name, value))
    } else {
        named.push((name, value))
    }
}

/// The values with all of these put among them, in order.
pub open spec fn with_values<T>(
    named: Seq<(Seq<char>, T)>,
    known: Seq<(Seq<char>, T)>,
) -> Seq<(Seq<char>, T)>
    decreases known.len(),
{
    if known.len() == 0 {
        named
    } else {
        with_value(with_values(named, known.drop_last()), known.last().0, known.last().1)
    }
}

/// What two parts of one name come to: the values of two tables together, the known
/// ones over the stored ones, and otherwise the known part.
pub open spec fn merged_body<V>(stored: SectionView<V>, known: SectionView<V>) -> SectionView<V> {
    match (stored, known) {
        (SectionView::Table(old), SectionView::Table(new)) => SectionView::Table(
            with_values(old, new),
        ),
        _ => known,
    }
}

/// The file with one known part put among its own.
pub open spec fn with_section<V>(
    stored: Seq<(Seq<char>, SectionView<V>)>,
    name: Seq<char>,
    known: SectionView<V>,
) -> Seq<(Seq<char>, SectionView<V>)> {
    if has_name(stored, name) {
        with_value(stored, name, merged_body(value_of(stored, name), known))
    } else {
        with_value(stored, name, known)
    }
}

/// The file with all known parts put among its own, in order.
pub open spec fn with_sections<V>(
    stored: Seq<(Seq<char>, SectionView<V>)>,
    known: Seq<(Seq<char>, SectionView<V>)>,
) -> Seq<(Seq<char>, SectionView<V>)>
    decreases known.len(),
{
    if known.len() == 0 {
        stored
    } else {
        with_section(with_sections(stored, known.drop_last()), known.last().0, known.last().1)
    }
}

proof fn lemma_place<T>(named: Seq<(Seq<char>, T)>, name: Seq<char>, i: int)
    requires
        0 <= i <= named.len(),
        i < named.len() ==> named[i].0 == name,
        forall|k: int| 0 <= k < i ==> (#[trigger] named[k]).0 != name,
    ensures
        place_of(named, name) == i,
    decreases named.len(),
{
    if i > 0 {
        let rest = named.drop_first();
        assert forall|k: int| 0 <= k < i - 1 implies (#[trigger] rest[k]).0 != name by {
            assert(rest[k] == named[k + 1]);
        }
        lemma_place(rest, name, i - 1);
        assert(named[0].0 != name);
    }
}

proof fn lemma_place_is_first<T>(named: Seq<(Seq<char>, T)>, name: Seq<char>)
    ensures
        0 <= place_of(named, name) <= named.len(),
        has_name(named, name) ==> named[place_of(named, name)].0 == name,
        forall|k: int| 0 <= k < place_of(named, name) ==> (#[trigger] named[k]).0 != name,
    decreases named.len(),
{
    if named.len() > 0 && named[0].0 != name {
        let rest = named.drop_first();
        lemma_place_is_first(rest, name);
        assert forall|k: int| 0 <= k < place_of(named, name) implies (#[trigger] named[k]).0 != name by {
            if k > 0 {
                assert(rest[k - 1] == named[k]);
            }
        }
    }
}

fn put_value<V>(entries: &mut Vec<(String, V)>, name: String, value: V)
    ensures
        entry_views(final(entries)@) == with_value(entry_views(old(entries)@), name@, value),
{
    let ghost views = entry_views(entries@);
    let mut i: usize = 0;
    while i < entries.len() && !same_text(entries[i].0.as_str(), name.as_str())
        invariant
            i <= entries.len(),
            views == entry_views(entries@),
            forall|k: int| 0 <= k < i ==> (#[trigger] views[k]).0 != name@,
        decreases entries.len() - i,
    {
        i += 1;
    }
    proof {
        lemma_place(views, name@, i as int);
    }
    if i < entries.len() {
        entries.set(i, (name, value));
        assert(entry_views(entries@) =~= views.update(i as int, (name@, value)));
    } else {
        entries.push((name, value));
        assert(entry_views(entries@) =~= views.push((name@, value)));
    }
}

fn put_values<V>(entries: &mut Vec<(String, V)>, known: Vec<(String, V)>)
    ensures
        entry_views(final(entries)@) == with_values(
            entry_views(old(entries)@),
            entry_views(known@),
        ),
{
    let ghost start = entry_views(entries@);
    let ghost all = entry_views(known@);
    let ghost mut done: int = 0;
    let mut rest = known;
    assert(entry_views(rest@) =~= all.skip(0));
    while rest.len() > 0
        invariant
            0 <= done <= all.len(),
            entry_views(rest@) == all.skip(done),
            entry_views(entries@) == with_values(start, all.take(done)),
        decreases rest.len(),
    {
        let ghost waiting = rest@;
        assert(entry_views(waiting).len() == waiting.len());
        let (name, value) = rest.remove(0);
        assert(entry_views(waiting)[0] == (name@, value));
        assert forall|k: int| 0 <= k < rest@.len() implies #[trigger] entry_views(rest@)[k]
            == all.skip(done + 1)[k] by {
            assert(entry_views(waiting)[k + 1] == all.skip(done)[k + 1]);
        }
        assert(entry_views(rest@) =~= all.skip(done + 1));
        put_value(entries, name, value);
        proof {
            assert(all.take(done + 1).drop_last() =~= all.take(done));
            assert(all.take(done + 1).last() == (name@, value));
            done = done + 1;
        }
    }
    assert(all.take(done) =~= all);
}

fn merge_body<V>(stored: SectionBody<V>, known: SectionBody<V>) -> (body: SectionBody<V>)
    ensures
        body@ == merged_body(stored@, known@),
{
    match (stored, known) {
        (SectionBody::Table(old), SectionBody::Table(new)) => {
            let mut entries = old;
            put_values(&mut entries, new);
            SectionBody::Table(entries)
        },
        (_, known) => known,
    }
}

/// The parts of a configuration file to be written: those that the file holds already,
/// with the known ones put among them. A known value takes the place of the stored one
/// of its name, and everything else that is stored stays as it is and where it is.
pub fn merge_sections<V>(stored: Vec<Section<V>>, known: Vec<Section<V>>) -> (merged: Vec<
    Section<V>,
>)
    ensures
        section_views(merged@) == with_sections(section_views(stored@), section_views(known@)),
{
    let ghost start = section_views(stored@);
    let ghost all = section_views(known@);
    let ghost mut done: int = 0;
    let mut merged = stored;
    let mut rest = known;
    assert(section_views(rest@) =~= all.skip(0));
    while rest.len() > 0
        invariant
            0 <= done <= all.len(),
            section_views(rest@) == all.skip(done),
            section_views(merged@) == with_sections(start, all.take(done)),
        decreases rest.len(),
    {
        let ghost waiting = rest@;
        assert(section_views(waiting).len() == waiting.len());
        let Section { name, body } = rest.remove(0);
        let ghost known_body = body@;
        assert(section_views(waiting)[0] == (name@, known_body));
        assert forall|k: int| 0 <= k < rest@.len() implies #[trigger] section_views(rest@)[k]
            == all.skip(done + 1)[k] by {
            assert(section_views(waiting)[k + 1] == all.skip(done)[k + 1]);
        }
        assert(section_views(rest@) =~= all.skip(done + 1));
        put_section(&mut merged, name, body);
        proof {
            assert(all.take(done + 1).drop_last() =~= all.take(done));
            assert(all.take(done + 1).last() == (name@, known_body));
            done = done + 1;
        }
    }
    assert(all.take(done) =~= all);
    merged
}

fn put_section<V>(sections: &mut Vec<Section<V>>, name: String, body: SectionBody<V>)
    ensures
        section_views(final(sections)@) == with_section(
            section_views(old(sections)@),
            name@,
            body@,
        ),
{
    let ghost views = section_views(sections@);
    let mut i: usize = 0;
    while i < sections.len() && !same_text(sections[i].name.as_str(), name.as_str())
        invariant
            i <= sections.len(),
            views == section_views(sections@),
            forall|k: int| 0 <= k < i ==> (#[trigger] views[k]).0 != name@,
        decreases sections.len() - i,
    {
        i += 1;
    }
    proof {
        lemma_place(views, name@, i as int);
    }
    if i < sections.len() {
        let ghost before = sections@;
        let old = sections.remove(i);
        assert(views[i as int] == (old.name@, old.body@));
        let body = merge_body(old.body, body);
        let ghost whole = body@;
        sections.insert(i, Section { name, body });
        assert(section_views(sections@) =~= views.update(i as int, (name@, whole)));
    } else {
        let ghost whole = body@;
        sections.push(Section { name, body });
        assert(section_views(sections@) =~= views.push((name@, whole)));
    }
}

/// Putting one value among others gives it that name's place: it is there, every other
/// name keeps its value, and no name changes its place.
proof fn lemma_with_value<T>(
    named: Seq<(Seq<char>, T)>,
    name: Seq<char>,
    value: T,
    other: Seq<char>,
)
    ensures
        has_name(with_value(named, name, value), name),
        value_of(with_value(named, name, value), name) == value,
        other != name ==> has_name(with_value(named, name, value), other) == has_name(named, other),
        other != name && has_name(named, other) ==> value_of(with_value(named, name, value), other)
            == value_of(named, other),
        named.len() <= with_value(named, name, value).len(),
        forall|i: int|
            0 <= i < named.len() ==> (#[trigger] with_value(named, name, value)[i]).0 == named[i].0,
{
    let after = with_value(named, name, value);
    lemma_place_is_first(named, name);
    lemma_place_is_first(named, other);
    lemma_place_is_first(after, other);
    let i = place_of(named, name);
    lemma_place(after, name, i);
    if other != name {
        let j = place_of(named, other);
        if has_name(named, other) {
            assert(after[j] == named[j]);
            assert forall|k: int| 0 <= k < j implies (#[trigger] after[k]).0 != other by {
                assert(named[k].0 != other);
            }
            lemma_place(after, other, j);
        } else if has_name(after, other) {
            let k = place_of(after, other);
            assert(after[k].0 == other);
            if k < named.len() {
                assert(named[k].0 == other);
            }
        }
    }
}

/// Saving loses nothing of a table: every known name has its known value, every other
/// stored name keeps its value, no stored name changes its place, and there are no other
/// names.
pub proof fn law_saving_keeps_unknown_values<T>(
    stored: Seq<(Seq<char>, T)>,
    known: Seq<(Seq<char>, T)>,
    name: Seq<char>,
)
    requires
        forall|i: int, j: int|
            0 <= i < j < known.len() ==> (#[trigger] known[i]).0 != (#[trigger] known[j]).0,
    ensures
        ({
            let merged = with_values(stored, known);
            &&& has_name(known, name) ==> has_name(merged, name) && value_of(merged, name)
                == value_of(known, name)
            &&& !has_name(known, name) ==> has_name(merged, name) == has_name(stored, name)
            &&& !has_name(known, name) && has_name(stored, name) ==> value_of(merged, name)
                == value_of(stored, name)
            &&& stored.len() <= merged.len()
            &&& forall|i: int|
                0 <= i < stored.len() ==> (#[trigger] merged[i]).0 == stored[i].0
        }),
    decreases known.len(),
{
    if known.len() > 0 {
        let rest = known.drop_last();
        let last = known.last();
        assert forall|i: int, j: int| 0 <= i < j < rest.len() implies (#[trigger] rest[i]).0 != (
        #[trigger] rest[j]).0 by {
            assert(rest[i] == known[i] && rest[j] == known[j]);
        }
        law_saving_keeps_unknown_values(stored, rest, name);
        lemma_with_value(with_values(stored, rest), last.0, last.1, name);
        lemma_place_is_first(known, name);
        lemma_place_is_first(rest, name);
        let end = known.len() - 1;
        if name == last.0 {
            assert forall|k: int| 0 <= k < end implies (#[trigger] known[k]).0 != name by {
                assert(known[end].0 == name);
            }
            lemma_place(known, name, end);
        } else if has_name(known, name) {
            let k = place_of(known, name);
            assert(known[k].0 == name);
            assert(k < end);
            assert forall|j: int| 0 <= j < k implies (#[trigger] rest[j]).0 != name by {
                assert(rest[j] == known[j]);
            }
            assert(rest[k] == known[k]);
            lemma_place(rest, name, k);
        } else {
            if has_name(rest, name) {
                let k = place_of(rest, name);
                assert(rest[k] == known[k]);
                assert(known[k].0 == name);
                lemma_place_is_first(known, name);
            }
        }
        let before = with_values(stored, rest);
        let merged = with_values(stored, known);
        assert forall|i: int| 0 <= i < stored.len() implies (#[trigger] merged[i]).0
            == stored[i].0 by {
            assert(before[i].0 == stored[i].0);
        }
    } else {
        lemma_place_is_first(known, name);
    }
}

/// Saving loses nothing of a file: a part that is not known stays as it is, a known part
/// is merged with the stored one of its name, no stored part changes its place, and there
/// are no other parts.
pub proof fn law_saving_keeps_unknown_sections<V>(
    stored: Seq<(Seq<char>, SectionView<V>)>,
    known: Seq<(Seq<char>, SectionView<V>)>,
    name: Seq<char>,
)
    requires
        forall|i: int, j: int|
            0 <= i < j < known.len() ==> (#[trigger] known[i]).0 != (#[trigger] known[j]).0,
    ensures
        ({
            let merged = with_sections(stored, known);
            &&& has_name(known, name) ==> has_name(merged, name) && value_of(merged, name)
                == if has_name(stored, name) {
                merged_body(value_of(stored, name), value_of(known, name))
            } else {
                value_of(known, name)
            }
            &&& !has_name(known, name) ==> has_name(merged, name) == has_name(stored, name)
            &&& !has_name(known, name) && has_name(stored, name) ==> value_of(merged, name)
                == value_of(stored, name)
            &&& stored.len() <= merged.len()
            &&& forall|i: int|
                0 <= i < stored.len() ==> (#[trigger] merged[i]).0 == stored[i].0
        }),
    decreases known.len(),
{
    if known.len() > 0 {
        let rest = known.drop_last();
        let last = known.last();
        let end = known.len() - 1;
        assert forall|i: int, j: int| 0 <= i < j < rest.len() implies (#[trigger] rest[i]).0 != (
        #[trigger] rest[j]).0 by {
            assert(rest[i] == known[i] && rest[j] == known[j]);
        }
        let before = with_sections(stored, rest);
        let merged = with_sections(stored, known);
        let body = if has_name(before, last.0) {
            merged_body(value_of(before, last.0), last.1)
        } else {
            last.1
        };
        law_saving_keeps_unknown_sections(stored, rest, name);
        lemma_with_value(before, last.0, body, name);
        lemma_place_is_first(known, name);
        lemma_place_is_first(rest, name);
        if name == last.0 {
            assert forall|k: int| 0 <= k < end implies (#[trigger] known[k]).0 != name by {
                assert(known[end].0 == name);
            }
            lemma_place(known, name, end);
            if has_name(rest, name) {
                let k = place_of(rest, name);
                assert(rest[k] == known[k]);
            }
        } else if has_name(known, name) {
            let k = place_of(known, name);
            assert(known[k].0 == name);
            assert(k < end);
            assert forall|j: int| 0 <= j < k implies (#[trigger] rest[j]).0 != name by {
                assert(rest[j] == known[j]);
            }
            assert(rest[k] == known[k]);
            lemma_place(rest, name, k);
        } else if has_name(rest, name) {
            let k = place_of(rest, name);
            assert(rest[k] == known[k]);
            assert(known[k].0 == name);
        }
        assert forall|i: int| 0 <= i < stored.len() implies (#[trigger] merged[i]).0
            == stored[i].0 by {
            assert(before[i].0 == stored[i].0);
        }
    } else {
        lemma_place_is_first(known, name);
    }
}

/// Why a configuration could not be saved.
#[derive(Clone, Debug)]
pub enum SaveFailure {
    /// There is no place to keep a configuration.
    NoDirectory,
    /// The directory could not be made.
    CreateDirectory(String),
    /// The configuration could not be written as TOML.
    Serialize(String),
    /// The file could not be written.
    Write(String),
}

impl SaveFailure {
    /// What is told of the failure.
    pub open spec fn text(self) -> Seq<char> {
        match self {
            SaveFailure::NoDirectory => "Could not determine config directory."@,
            SaveFailure::CreateDirectory(cause) => "Failed to create config directory: "@ + cause@,
            SaveFailure::Serialize(cause) => "Failed to serialize config: "@ + cause@,
            SaveFailure::Write(cause) => "Failed to write config: "@ + cause@,
        }
    }

    /// What is told of the failure.
    pub fn message(&self) -> (message: String)
        ensures
            message@ == self.text(),
    {
        proof {
            reveal_strlit("");
        }
        let message = match self {
            SaveFailure::NoDirectory => "Could not determine config directory.".to_owned(),
            SaveFailure::CreateDirectory(cause) => joined(
                "Failed to create config directory: ",
                cause.as_str(),
                "",
            ),
            SaveFailure::Serialize(cause) => joined("Failed to serialize config: ", cause.as_str(), ""),
            SaveFailure::Write(cause) => joined("Failed to write config: ", cause.as_str(), ""),
        };
        assert(message@ =~= self.text());
        message
    }
}

impl Config {
    /// Every part has its defaults.
    pub open spec fn is_default(self) -> bool {
        &&& self.panel.is_default()
        &&& self.audio.is_default()
        &&& self.display.is_default()
        &&& self.shell.is_default()
    }

    /// The configuration to run with: the stored one, or the defaults where
    /// none could be read.
    pub fn load(stored: StoredConfig) -> (config: Self)
        ensures
            match stored {
                StoredConfig::Parsed(found) => config == found,
                _ => config.is_default(),
            },
    {
        match stored {
            StoredConfig::Parsed(found) => found,
            StoredConfig::NoDirectory | StoredConfig::Unreadable | StoredConfig::Malformed => {
                Config::default()
            },
        }
    }
}

/// The defaults: the panel at (0, 1.6, -2.5), 1.6 by 1.0 metres large and 0.95 opaque, in the
/// world, the theater five metres away and three times as large; the volume 0.8 on the
/// system's device without microphone; everything shown; the launcher with haptics.
pub proof fn law_defaults(config: Config)
    requires
        config.is_default(),
    ensures
        config.panel.position@.len() == 3,
        config.panel.position@[0].bits == 0,
        config.panel.position@[1].bits == 0x3fcc_cccd,
        config.panel.position@[2].bits == 0xc020_0000,
        config.panel.width.bits == 0x3fcc_cccd,
        config.panel.height.bits == 0x3f80_0000,
        config.panel.opacity.bits == 0x3f73_3333,
        config.panel.anchor is World,
        config.panel.theater_distance.bits == 0x40a0_0000,
        config.panel.theater_scale.bits == 0x4040_0000,
        config.audio.volume.bits == 0x3f4c_cccd,
        config.audio.output_device@ == Seq::<char>::empty(),
        !config.audio.mic_enabled,
        config.display.show_fps && config.display.show_boundary,
        config.display.theme@ == seq!['d', 'e', 'f', 'a', 'u', 'l', 't'],
        config.shell.default_view@ == seq!['l', 'a', 'u', 'n', 'c', 'h', 'e', 'r'],
        config.shell.haptics_enabled,
{
    reveal_strlit("default");
    reveal_strlit("launcher");
    assert(config.display.theme@ =~= seq!['d', 'e', 'f', 'a', 'u', 'l', 't']);
    assert(config.shell.default_view@ =~= seq!['l', 'a', 'u', 'n', 'c', 'h', 'e', 'r']);
}

/// A name stands for the first value under it, and it is known exactly where there is one.
pub proof fn law_names_stand_for_the_first<T>(named: Seq<(Seq<char>, T)>, name: Seq<char>, i: int)
    requires
        0 <= i < named.len(),
        named[i].0 == name,
    ensures
        has_name(named, name),
        (forall|k: int| 0 <= k < i ==> (#[trigger] named[k]).0 != name) ==> value_of(named, name)
            == named[i].1,
        exists|k: int|
            0 <= k <= i && (#[trigger] named[k]).0 == name && value_of(named, name) == named[k].1,
{
    lemma_place_is_first(named, name);
    if forall|k: int| 0 <= k < i ==> (#[trigger] named[k]).0 != name {
        lemma_place(named, name, i);
    }
    let k = place_of(named, name);
    if k > i {
        assert(named[i].0 != name);
    }
    assert(named[k].0 == name);
}

/// A value goes to the place of its name, or behind all others where the name is new; every
/// other place stays as it is, and known values go in one after the other.
pub proof fn law_values_go_to_their_place<T>(
    named: Seq<(Seq<char>, T)>,
    name: Seq<char>,
    value: T,
    i: int,
)
    requires
        0 <= i < named.len(),
    ensures
        ({
            let after = with_value(named, name, value);
            let is_new = forall|k: int| 0 <= k < named.len() ==> (#[trigger] named[k]).0 != name;
            let is_first = named[i].0 == name && forall|k: int|
                0 <= k < i ==> (#[trigger] named[k]).0 != name;
            &&& is_new ==> after == named.push((name, value))
            &&& !is_new ==> after.len() == named.len()
            &&& is_first ==> after[i] == (name, value)
            &&& !is_first ==> after[i] == named[i]
        }),
{
    lemma_place_is_first(named, name);
    let is_first = named[i].0 == name && forall|k: int|
        0 <= k < i ==> (#[trigger] named[k]).0 != name;
    if is_first {
        lemma_place(named, name, i);
    }
    if has_name(named, name) {
        assert(named[place_of(named, name)].0 == name);
    }
}

/// Values of two lists go in like those of the first and then those of the second; a list of
/// one is that value. The same holds of the parts of a file.
pub proof fn law_values_go_in_order<T>(
    named: Seq<(Seq<char>, T)>,
    first: Seq<(Seq<char>, T)>,
    second: Seq<(Seq<char>, T)>,
    only: (Seq<char>, T),
)
    ensures
        with_values(named, first + second) == with_values(with_values(named, first), second),
        with_values(named, seq![only]) == with_value(named, only.0, only.1),
        with_values(named, Seq::empty()) == named,
    decreases second.len(),
{
    reveal_with_fuel(with_values, 2);
    assert(seq![only].drop_last() =~= Seq::<(Seq<char>, T)>::empty());
    if second.len() == 0 {
        assert(first + second =~= first);
    } else {
        law_values_go_in_order(named, first, second.drop_last(), only);
        assert((first + second).drop_last() =~= first + second.drop_last());
        assert((first + second).last() == second.last());
    }
}

/// Parts of two lists go in like those of the first and then those of the second; a list of
/// one is that part, merged with the stored one of its name.
pub proof fn law_sections_go_in_order<V>(
    stored: Seq<(Seq<char>, SectionView<V>)>,
    first: Seq<(Seq<char>, SectionView<V>)>,
    second: Seq<(Seq<char>, SectionView<V>)>,
    only: (Seq<char>, SectionView<V>),
)
    ensures
        with_sections(stored, first + second) == with_sections(
            with_sections(stored, first),
            second,
        ),
        !has_name(stored, only.0) ==> with_sections(stored, seq![only]) == stored.push(only),
        has_name(stored, only.0) ==> with_sections(stored, seq![only]) == with_value(
            stored,
            only.0,
            merged_body(value_of(stored, only.0), only.1),
        ),
        with_sections(stored, Seq::empty()) == stored,
    decreases second.len(),
{
    reveal_with_fuel(with_sections, 2);
    assert(seq![only].drop_last() =~= Seq::<(Seq<char>, SectionView<V>)>::empty());
    if second.len() == 0 {
        assert(first + second =~= first);
    } else {
        law_sections_go_in_order(stored, first, second.drop_last(), only);
        assert((first + second).drop_last() =~= first + second.drop_last());
        assert((first + second).last() == second.last());
    }
}

/// Two tables of one name become one with the values of both, and of a name in both the known
/// value. Where either is no table, the known part stands alone.
pub proof fn law_known_parts_win<V>(stored: SectionView<V>, known: SectionView<V>)
    ensures
        stored is Single || known is Single ==> merged_body(stored, known) == known,
        stored is Table && known is Table ==> merged_body(stored, known) is Table
            && merged_body(stored, known)->Table_0 == with_values(
            stored->Table_0,
            known->Table_0,
        ),
{
}

/// Every failure but the missing directory ends with its cause, after what could not be done.
pub proof fn law_failures_tell_their_cause(cause: String)
    ensures
        SaveFailure::CreateDirectory(cause).text() == "Failed to create config directory: "@
            + cause@,
        SaveFailure::Serialize(cause).text() == "Failed to serialize config: "@ + cause@,
        SaveFailure::Write(cause).text() == "Failed to write config: "@ + cause@,
        SaveFailure::NoDirectory.text() == "Could not determine config directory."@,
{
}

/// The contents of a table and of a file are those of its entries, in their places: the
/// characters of each name, and what stands under it.
pub proof fn law_contents_are_those_of_the_entries<V>(
    entries: Seq<(String, V)>,
    sections: Seq<Section<V>>,
    i: int,
)
    ensures
        entry_views(entries).len() == entries.len(),
        section_views(sections).len() == sections.len(),
        0 <= i < entries.len() ==> entry_views(entries)[i] == (entries[i].0@, entries[i].1),
        0 <= i < sections.len() ==> section_views(sections)[i].0 == sections[i].name@,
        0 <= i < sections.len() && sections[i].body is Table ==> section_views(sections)[i].1
            == SectionView::Table(entry_views(sections[i].body->Table_0@)),
        0 <= i < sections.len() && sections[i].body is Single ==> section_views(sections)[i].1
            == SectionView::Single(sections[i].body->Single_0),
{
}

} // verus!
