//! The chart (beatmap) model and its line-oriented text format.
use vstd::prelude::*;

use crate::hit_type::{
    classify, shape_of, HitObjectShape, HitObjectType, KNOWN_BITS,
};
use crate::text::{
    char_vecs, chars_eq, chars_of, decimal_of, i32_of, join, parse_decimal, parse_i32,
    parse_u32, parse_u8, slice_chars, split_chars, split_on, split_once, split_once_chars,
    string_of, concat_chars, trim, trim_chars, u32_of, u8_of, Decimal,
};

verus! {

/// A colour as red, green and blue.
pub type Rgb = (u8, u8, u8);

pub struct General {
    pub audio_filename: String,
    pub audio_lead_in: i32,
    pub preview_time: i32,
    pub countdown: i32,
    pub sample_set: String,
    pub stack_leniency: Decimal,
    pub mode: i32,
    pub letterbox_in_breaks: bool,
    pub widescreen_storyboard: bool,
}

pub struct GeneralView {
    pub audio_filename: Seq<char>,
    pub audio_lead_in: i32,
    pub preview_time: i32,
    pub countdown: i32,
    pub sample_set: Seq<char>,
    pub stack_leniency: Decimal,
    pub mode: i32,
    pub letterbox_in_breaks: bool,
    pub widescreen_storyboard: bool,
}

impl View for General {
    type V = GeneralView;

    open spec fn view(&self) -> GeneralView {
        GeneralView {
            audio_filename: self.audio_filename@,
            audio_lead_in: self.audio_lead_in,
            preview_time: self.preview_time,
            countdown: self.countdown,
            sample_set: self.sample_set@,
            stack_leniency: self.stack_leniency,
            mode: self.mode,
            letterbox_in_breaks: self.letterbox_in_breaks,
            widescreen_storyboard: self.widescreen_storyboard,
        }
    }
}

pub open spec fn default_general() -> GeneralView {
    GeneralView {
        audio_filename: Seq::empty(),
        audio_lead_in: 0,
        preview_time: 0,
        countdown: 0,
        sample_set: Seq::empty(),
        stack_leniency: Decimal { mantissa: 0, scale: 0 },
        mode: 0,
        letterbox_in_breaks: false,
        widescreen_storyboard: false,
    }
}

impl Default for General {
    fn default() -> (r: General)
        ensures
            r@ == default_general(),
    {
        General {
            audio_filename: String::new(),
            audio_lead_in: 0,
            preview_time: 0,
            countdown: 0,
            sample_set: String::new(),
            stack_leniency: Decimal::whole(0),
            mode: 0,
            letterbox_in_breaks: false,
            widescreen_storyboard: false,
        }
    }
}

pub struct Metadata {
    pub title: String,
    pub title_unicode: String,
    pub artist: String,
    pub artist_unicode: String,
    pub creator: String,
    pub version: String,
    pub source: String,
    pub tags: String,
    pub beatmap_id: i32,
    pub beatmap_set_id: i32,
}

pub struct MetadataView {
    pub title: Seq<char>,
    pub title_unicode: Seq<char>,
    pub artist: Seq<char>,
    pub artist_unicode: Seq<char>,
    pub creator: Seq<char>,
    pub version: Seq<char>,
    pub source: Seq<char>,
    pub tags: Seq<char>,
    pub beatmap_id: i32,
    pub beatmap_set_id: i32,
}

impl View for Metadata {
    type V = MetadataView;

    open spec fn view(&self) -> MetadataView {
        MetadataView {
            title: self.title@,
            title_unicode: self.title_unicode@,
            artist: self.artist@,
            artist_unicode: self.artist_unicode@,
            creator: self.creator@,
            version: self.version@,
            source: self.source@,
            tags: self.tags@,
            beatmap_id: self.beatmap_id,
            beatmap_set_id: self.beatmap_set_id,
        }
    }
}

pub open spec fn default_metadata() -> MetadataView {
    MetadataView {
        title: Seq::empty(),
        title_unicode: Seq::empty(),
        artist: Seq::empty(),
        artist_unicode: Seq::empty(),
        creator: Seq::empty(),
        version: Seq::empty(),
        source: Seq::empty(),
        tags: Seq::empty(),
        beatmap_id: 0,
        beatmap_set_id: 0,
    }
}

impl Default for Metadata {
    fn default() -> (r: Metadata)
        ensures
            r@ == default_metadata(),
    {
        Metadata {
            title: String::new(),
            title_unicode: String::new(),
            artist: String::new(),
            artist_unicode: String::new(),
            creator: String::new(),
            version: String::new(),
            source: String::new(),
            tags: String::new(),
            beatmap_id: 0,
            beatmap_set_id: 0,
        }
    }
}

/// Difficulty settings, each a decimal number.
#[derive(Clone, Copy, Debug, PartialEq, Eq, Structural)]
pub struct Difficulty {
    pub hp_drain_rate: Decimal,
    pub circle_size: Decimal,
    pub overall_difficulty: Decimal,
    pub approach_rate: Decimal,
    pub slider_multiplier: Decimal,
    pub slider_tick_rate: Decimal,
}

impl View for Difficulty {
    type V = Difficulty;

    open spec fn view(&self) -> Difficulty {
        *self
    }
}

pub open spec fn whole(n: i64) -> Decimal {
    Decimal { mantissa: n, scale: 0 }
}

/// The settings a chart has where it states none: 5 for the four ratings,
/// 1 for the slider multiplier and tick rate.
pub open spec fn default_difficulty() -> Difficulty {
    Difficulty {
        hp_drain_rate: whole(5),
        circle_size: whole(5),
        overall_difficulty: whole(5),
        approach_rate: whole(5),
        slider_multiplier: whole(1),
        slider_tick_rate: whole(1),
    }
}

impl Default for Difficulty {
    fn default() -> (r: Difficulty)
        ensures
            r == default_difficulty(),
    {
        Difficulty {
            hp_drain_rate: Decimal::whole(5),
            circle_size: Decimal::whole(5),
            overall_difficulty: Decimal::whole(5),
            approach_rate: Decimal::whole(5),
            slider_multiplier: Decimal::whole(1),
            slider_tick_rate: Decimal::whole(1),
        }
    }
}

#[derive(Clone, Copy, Debug, PartialEq, Eq, Structural)]
pub struct TimingPoint {
    pub offset: Decimal,
    pub ms_per_beat: Decimal,
    pub meter: i32,
    pub sample_type: i32,
    pub sample_set: i32,
    pub volume: i32,
    pub uninherited: bool,
    pub effects: i32,
}

pub struct HitObject {
    pub x: i32,
    pub y: i32,
    pub time: i32,
    pub obj_type: HitObjectType,
    pub shape: HitObjectShape,
    pub hit_sound: i32,
    pub extras: String,
}

pub struct HitObjectView {
    pub x: i32,
    pub y: i32,
    pub time: i32,
    pub obj_type: HitObjectType,
    pub shape: HitObjectShape,
    pub hit_sound: i32,
    pub extras: Seq<char>,
}

impl View for HitObject {
    type V = HitObjectView;

    open spec fn view(&self) -> HitObjectView {
        HitObjectView {
            x: self.x,
            y: self.y,
            time: self.time,
            obj_type: self.obj_type,
            shape: self.shape,
            hit_sound: self.hit_sound,
            extras: self.extras@,
        }
    }
}

/// The combo palette in order, and the other named colours.
pub struct Colours {
    pub combos: Vec<Rgb>,
    pub others: Vec<(String, Rgb)>,
}

pub struct ColoursView {
    pub combos: Seq<Rgb>,
    pub others: Seq<(Seq<char>, Rgb)>,
}

impl View for Colours {
    type V = ColoursView;

    open spec fn view(&self) -> ColoursView {
        ColoursView {
            combos: self.combos@,
            others: self.others@.map_values(|e: (String, Rgb)| (e.0@, e.1)),
        }
    }
}

/// No name occurs twice among the named colours.
pub open spec fn names_unique(others: Seq<(Seq<char>, Rgb)>) -> bool {
    forall|i: int, j: int|
        0 <= i < j < others.len() ==> #[trigger] others[i].0 != #[trigger] others[j].0
}

/// Position of the entry named `name`, or -1.
pub open spec fn name_index(others: Seq<(Seq<char>, Rgb)>, name: Seq<char>) -> int
    decreases others.len(),
{
    if others.len() == 0 {
        -1
    } else if others.last().0 == name {
        others.len() - 1
    } else {
        name_index(others.drop_last(), name)
    }
}

/// The named colours after `name` is set to `rgb`: an existing entry keeps its
/// place and takes the new colour, a new name goes last.
pub open spec fn named_insert(others: Seq<(Seq<char>, Rgb)>, name: Seq<char>, rgb: Rgb) -> Seq<
    (Seq<char>, Rgb),
> {
    let k = name_index(others, name);
    if k < 0 {
        others.push((name, rgb))
    } else {
        others.update(k, (name, rgb))
    }
}

impl Colours {
    pub open spec fn wf(&self) -> bool {
        names_unique(self@.others)
    }

    /// The colour stored under `name`, if any.
    pub fn named(&self, name: &str) -> (r: Option<Rgb>)
        ensures
            ({
                let k = name_index(self@.others, name@);
                if k < 0 {
                    r is None
                } else {
                    r == Some(self@.others[k].1)
                }
            }),
    {
        let key = chars_of(name);
        match self.find(&key) {
            Some(k) => Some(self.others[k].1),
            None => None,
        }
    }

    fn find(&self, name: &[char]) -> (r: Option<usize>)
        ensures
            match r {
                Some(k) => k == name_index(self@.others, name@) && k < self@.others.len(),
                None => name_index(self@.others, name@) == -1,
            },
    {
        let ghost o = self@.others;
        let mut i: usize = self.others.len();
        assert(o.subrange(0, i as int) =~= o);
        while i > 0
            invariant
                i <= self.others@.len() == o.len(),
                o == self@.others,
                name_index(o, name@) == name_index(o.subrange(0, i as int), name@),
            decreases i,
        {
            let ghost p = o.subrange(0, i as int);
            assert(p.drop_last() =~= o.subrange(0, i - 1));
            let key = chars_of(self.others[i - 1].0.as_str());
            if chars_eq(&key, name) {
                assert(p.last() == o[i - 1]);
                return Some(i - 1);
            }
            i = i - 1;
        }
        None
    }
}

impl Default for Colours {
    fn default() -> (r: Colours)
        ensures
            r@.combos.len() == 0,
            r@.others.len() == 0,
            r.wf(),
    {
        Colours { combos: Vec::new(), others: Vec::new() }
    }
}

pub open spec fn or_i32(o: Option<i32>, d: i32) -> i32 {
    match o {
        Some(v) => v,
        None => d,
    }
}

pub open spec fn or_decimal(o: Option<Decimal>, d: Decimal) -> Decimal {
    match o {
        Some(v) => v,
        None => d,
    }
}

/// Field `i` of `parts` read as an `i32`, or `d` where it is missing or malformed.
pub open spec fn int_field(parts: Seq<Seq<char>>, i: int, d: i32) -> i32 {
    if i < parts.len() {
        or_i32(i32_of(parts[i]), d)
    } else {
        d
    }
}

/// Field `i` of `parts` read as a decimal, or `d` where it is missing or malformed.
pub open spec fn decimal_field(parts: Seq<Seq<char>>, i: int, d: Decimal) -> Decimal {
    if i < parts.len() {
        or_decimal(decimal_of(parts[i]), d)
    } else {
        d
    }
}

fn read_i32_or(s: &[char], d: i32) -> (r: i32)
    ensures
        r == or_i32(i32_of(s@), d),
{
    match parse_i32(s) {
        Some(v) => v,
        None => d,
    }
}

fn read_decimal_or(s: &[char], d: Decimal) -> (r: Decimal)
    ensures
        r == or_decimal(decimal_of(s@), d),
{
    match parse_decimal(s) {
        Some(v) => v,
        None => d,
    }
}

fn int_field_at(parts: &Vec<Vec<char>>, i: usize, d: i32) -> (r: i32)
    ensures
        r == int_field(char_vecs(parts@), i as int, d),
{
    if i < parts.len() {
        read_i32_or(&parts[i], d)
    } else {
        d
    }
}

fn decimal_field_at(parts: &Vec<Vec<char>>, i: usize, d: Decimal) -> (r: Decimal)
    ensures
        r == decimal_field(char_vecs(parts@), i as int, d),
{
    if i < parts.len() {
        read_decimal_or(&parts[i], d)
    } else {
        d
    }
}

/// A section's `Key: Value` line applied to its record.
pub trait ParseKeyValue: View + Sized {
    /// The record after `key` is set from `value`; an unknown key leaves it as it is.
    spec fn with_field(v: Self::V, key: Seq<char>, value: Seq<char>) -> Self::V;

    fn set_field(&mut self, key: &[char], value: &[char])
        ensures
            final(self)@ == Self::with_field(old(self)@, key@, value@),
    ;
}

impl ParseKeyValue for General {
    open spec fn with_field(v: GeneralView, key: Seq<char>, value: Seq<char>) -> GeneralView {
        if key == "AudioFilename"@ {
            GeneralView { audio_filename: value, ..v }
        } else if key == "AudioLeadIn"@ {
            GeneralView { audio_lead_in: or_i32(i32_of(value), 0), ..v }
        } else if key == "Mode"@ {
            GeneralView { mode: or_i32(i32_of(value), 0), ..v }
        } else {
            v
        }
    }

    fn set_field(&mut self, key: &[char], value: &[char]) {
        if chars_eq(key, &chars_of("AudioFilename")) {
            self.audio_filename = string_of(value);
        } else if chars_eq(key, &chars_of("AudioLeadIn")) {
            self.audio_lead_in = read_i32_or(value, 0);
        } else if chars_eq(key, &chars_of("Mode")) {
            self.mode = read_i32_or(value, 0);
        }
    }
}

impl ParseKeyValue for Metadata {
    open spec fn with_field(v: MetadataView, key: Seq<char>, value: Seq<char>) -> MetadataView {
        if key == "Title"@ {
            MetadataView { title: value, ..v }
        } else if key == "Artist"@ {
            MetadataView { artist: value, ..v }
        } else if key == "Creator"@ {
            MetadataView { creator: value, ..v }
        } else if key == "Version"@ {
            MetadataView { version: value, ..v }
        } else {
            v
        }
    }

    fn set_field(&mut self, key: &[char], value: &[char]) {
        if chars_eq(key, &chars_of("Title")) {
            self.title = string_of(value);
        } else if chars_eq(key, &chars_of("Artist")) {
            self.artist = string_of(value);
        } else if chars_eq(key, &chars_of("Creator")) {
            self.creator = string_of(value);
        } else if chars_eq(key, &chars_of("Version")) {
            self.version = string_of(value);
        }
    }
}

impl ParseKeyValue for Difficulty {
    open spec fn with_field(v: Difficulty, key: Seq<char>, value: Seq<char>) -> Difficulty {
        let d = decimal_of(value);
        if key == "HPDrainRate"@ {
            Difficulty { hp_drain_rate: or_decimal(d, whole(5)), ..v }
        } else if key == "CircleSize"@ {
            Difficulty { circle_size: or_decimal(d, whole(5)), ..v }
        } else if key == "OverallDifficulty"@ {
            Difficulty { overall_difficulty: or_decimal(d, whole(5)), ..v }
        } else if key == "ApproachRate"@ {
            Difficulty { approach_rate: or_decimal(d, whole(5)), ..v }
        } else if key == "SliderMultiplier"@ {
            Difficulty { slider_multiplier: or_decimal(d, whole(1)), ..v }
        } else if key == "SliderTickRate"@ {
            Difficulty { slider_tick_rate: or_decimal(d, whole(1)), ..v }
        } else {
            v
        }
    }

    fn set_field(&mut self, key: &[char], value: &[char]) {
        if chars_eq(key, &chars_of("HPDrainRate")) {
            self.hp_drain_rate = read_decimal_or(value, Decimal::whole(5));
        } else if chars_eq(key, &chars_of("CircleSize")) {
            self.circle_size = read_decimal_or(value, Decimal::whole(5));
        } else if chars_eq(key, &chars_of("OverallDifficulty")) {
            self.overall_difficulty = read_decimal_or(value, Decimal::whole(5));
        } else if chars_eq(key, &chars_of("ApproachRate")) {
            self.approach_rate = read_decimal_or(value, Decimal::whole(5));
        } else if chars_eq(key, &chars_of("SliderMultiplier")) {
            self.slider_multiplier = read_decimal_or(value, Decimal::whole(1));
        } else if chars_eq(key, &chars_of("SliderTickRate")) {
            self.slider_tick_rate = read_decimal_or(value, Decimal::whole(1));
        }
    }
}

/// The record after one `Key: Value` line; a line without `:` changes nothing.
pub open spec fn key_value_step<T: ParseKeyValue>(v: T::V, line: Seq<char>) -> T::V {
    match split_once(line, ':') {
        Some((k, val)) => T::with_field(v, trim(k), trim(val)),
        None => v,
    }
}

/// Applies a `Key: Value` line to `target`, both sides trimmed.
pub fn parse_key_value<T: ParseKeyValue>(line: &[char], target: &mut T)
    ensures
        final(target)@ == key_value_step::<T>(old(target)@, line@),
{
    match split_once_chars(line, ':') {
        Some((k, v)) => {
            let key = trim_chars(&k);
            let value = trim_chars(&v);
            target.set_field(&key, &value);
        },
        None => {},
    }
}

/// The timing point that a comma-separated line describes; a missing or
/// malformed field takes its default.
pub open spec fn timing_point_of(line: Seq<char>) -> TimingPoint {
    let p = split_on(line, ',');
    TimingPoint {
        offset: decimal_field(p, 0, whole(0)),
        ms_per_beat: decimal_field(p, 1, whole(0)),
        meter: int_field(p, 2, 4),
        sample_type: int_field(p, 3, 0),
        sample_set: int_field(p, 4, 0),
        volume: int_field(p, 5, 100),
        uninherited: int_field(p, 6, 1) == 1,
        effects: int_field(p, 7, 0),
    }
}

pub fn parse_timing_point(line: &[char]) -> (r: TimingPoint)
    ensures
        r == timing_point_of(line@),
{
    let p = split_chars(line, ',');
    TimingPoint {
        offset: decimal_field_at(&p, 0, Decimal::whole(0)),
        ms_per_beat: decimal_field_at(&p, 1, Decimal::whole(0)),
        meter: int_field_at(&p, 2, 4),
        sample_type: int_field_at(&p, 3, 0),
        sample_set: int_field_at(&p, 4, 0),
        volume: int_field_at(&p, 5, 100),
        uninherited: int_field_at(&p, 6, 1) == 1,
        effects: int_field_at(&p, 7, 0),
    }
}

/// The raw type number of a hit-object line, 0 where missing or malformed.
pub open spec fn raw_type(p: Seq<Seq<char>>) -> u32 {
    if 3 < p.len() {
        match u32_of(p[3]) {
            Some(v) => v,
            None => 0,
        }
    } else {
        0
    }
}

/// The fields after the fifth, joined back with commas.
pub open spec fn extras_of(p: Seq<Seq<char>>) -> Seq<char> {
    if p.len() > 5 {
        join(p.subrange(5, p.len() as int), ',')
    } else {
        Seq::empty()
    }
}

/// The hit object that an `x,y,time,type,hit_sound[,extras...]` line describes.
pub open spec fn hit_object_of(line: Seq<char>) -> HitObjectView {
    let p = split_on(line, ',');
    let t = HitObjectType { bits: raw_type(p) & KNOWN_BITS };
    HitObjectView {
        x: int_field(p, 0, 0),
        y: int_field(p, 1, 0),
        time: int_field(p, 2, 0),
        obj_type: t,
        shape: shape_of(t),
        hit_sound: int_field(p, 4, 0),
        extras: extras_of(p),
    }
}

fn join_from(p: &Vec<Vec<char>>, start: usize, sep: char) -> (r: Vec<char>)
    requires
        start <= p@.len(),
    ensures
        r@ == join(char_vecs(p@).subrange(start as int, p@.len() as int), sep),
{
    let ghost ps = char_vecs(p@);
    let mut r: Vec<char> = Vec::new();
    let mut k: usize = start;
    while k < p.len()
        invariant
            start <= k <= p@.len(),
            ps == char_vecs(p@),
            r@ == join(ps.subrange(start as int, k as int), sep),
        decreases p.len() - k,
    {
        let ghost before = ps.subrange(start as int, k as int);
        let ghost after = ps.subrange(start as int, k + 1);
        assert(after.drop_last() =~= before);
        assert(after.last() == p@[k as int]@);
        if k > start {
            r.push(sep);
        }
        let piece = concat_chars(&r, &p[k]);
        r = piece;
        k = k + 1;
        assert(k - 1 == start ==> r@ =~= after[0]);
    }
    r
}

pub fn parse_hit_object(line: &[char]) -> (r: HitObject)
    ensures
        r@ == hit_object_of(line@),
{
    let p = split_chars(line, ',');
    let raw: u32 = if 3 < p.len() {
        match parse_u32(&p[3]) {
            Some(v) => v,
            None => 0,
        }
    } else {
        0
    };
    let obj_type = HitObjectType::from_bits_truncate(raw);
    let extras = if p.len() > 5 {
        join_from(&p, 5, ',')
    } else {
        Vec::new()
    };
    HitObject {
        x: int_field_at(&p, 0, 0),
        y: int_field_at(&p, 1, 0),
        time: int_field_at(&p, 2, 0),
        obj_type,
        shape: classify(obj_type),
        hit_sound: int_field_at(&p, 4, 0),
        extras: string_of(&extras),
    }
}

/// A name that starts with "combo", in any letter case.
pub open spec fn is_combo_name(key: Seq<char>) -> bool {
    key.len() >= 5 && (key[0] == 'c' || key[0] == 'C') && (key[1] == 'o' || key[1] == 'O') && (
    key[2] == 'm' || key[2] == 'M') && (key[3] == 'b' || key[3] == 'B') && (key[4] == 'o' || key[4]
        == 'O')
}

fn combo_name(key: &[char]) -> (r: bool)
    ensures
        r == is_combo_name(key@),
{
    key.len() >= 5 && (key[0] == 'c' || key[0] == 'C') && (key[1] == 'o' || key[1] == 'O') && (
    key[2] == 'm' || key[2] == 'M') && (key[3] == 'b' || key[3] == 'B') && (key[4] == 'o' || key[4]
        == 'O')
}

/// The colour written `r,g,b`: exactly three fields, each an integer from 0 to
/// 255 once trimmed.
pub open spec fn rgb_of(s: Seq<char>) -> Option<Rgb> {
    let p = split_on(s, ',');
    if p.len() == 3 && u8_of(trim(p[0])) is Some && u8_of(trim(p[1])) is Some && u8_of(
        trim(p[2]),
    ) is Some {
        Some((u8_of(trim(p[0]))->0, u8_of(trim(p[1]))->0, u8_of(trim(p[2]))->0))
    } else {
        None
    }
}

fn read_rgb(s: &[char]) -> (r: Option<Rgb>)
    ensures
        r == rgb_of(s@),
{
    let p = split_chars(s, ',');
    if p.len() != 3 {
        return None;
    }
    let r = parse_u8(&trim_chars(&p[0]));
    let g = parse_u8(&trim_chars(&p[1]));
    let b = parse_u8(&trim_chars(&p[2]));
    match (r, g, b) {
        (Some(r), Some(g), Some(b)) => Some((r, g, b)),
        _ => None,
    }
}

/// The colours after one `Name: r,g,b` line: a combo name appends to the
/// palette, another name sets that named colour; a line without `:` or with
/// a malformed colour changes nothing.
pub open spec fn colour_step(c: ColoursView, line: Seq<char>) -> ColoursView {
    match split_once(line, ':') {
        Some((k, v)) => match rgb_of(trim(v)) {
            Some(rgb) => {
                let key = trim(k);
                if is_combo_name(key) {
                    ColoursView { combos: c.combos.push(rgb), ..c }
                } else {
                    ColoursView { others: named_insert(c.others, key, rgb), ..c }
                }
            },
            None => c,
        },
        None => c,
    }
}

proof fn lemma_name_index(others: Seq<(Seq<char>, Rgb)>, name: Seq<char>)
    ensures
        -1 <= name_index(others, name) < others.len(),
        name_index(others, name) >= 0 ==> others[name_index(others, name)].0 == name,
        name_index(others, name) < 0 ==> forall|i: int|
            0 <= i < others.len() ==> #[trigger] others[i].0 != name,
    decreases others.len(),
{
    if others.len() > 0 {
        lemma_name_index(others.drop_last(), name);
        if others.last().0 != name {
            assert forall|i: int| 0 <= i < others.len() - 1 implies #[trigger] others[i]
                == others.drop_last()[i] by {}
        }
    }
}

impl Colours {
    fn set_named(&mut self, key: &[char], rgb: Rgb)
        requires
            old(self).wf(),
        ensures
            final(self).wf(),
            final(self)@ == (ColoursView {
                others: named_insert(old(self)@.others, key@, rgb),
                ..old(self)@
            }),
    {
        proof {
            lemma_name_index(self@.others, key@);
        }
        let ghost o = self@.others;
        let name = string_of(key);
        match self.find(key) {
            Some(k) => {
                self.others.set(k, (name, rgb));
            },
            None => {
                self.others.push((name, rgb));
            },
        }
        assert(self@.others =~= named_insert(o, key@, rgb));
    }
}

/// Applies a `Name: r,g,b` line to `colours`.
pub fn parse_colour(line: &[char], colours: &mut Colours)
    requires
        old(colours).wf(),
    ensures
        final(colours).wf(),
        final(colours)@ == colour_step(old(colours)@, line@),
{
    match split_once_chars(line, ':') {
        Some((k, v)) => {
            let value = trim_chars(&v);
            match read_rgb(&value) {
                Some(rgb) => {
                    let key = trim_chars(&k);
                    if combo_name(&key) {
                        colours.combos.push(rgb);
                        assert(colours@.others == old(colours)@.others);
                    } else {
                        colours.set_named(&key, rgb);
                    }
                },
                None => {},
            }
        },
        None => {},
    }
}

/// A whole chart, as loaded from its text.
pub struct OsuFile {
    pub general: General,
    pub metadata: Metadata,
    pub difficulty: Difficulty,
    pub timing_points: Vec<TimingPoint>,
    pub hit_objects: Vec<HitObject>,
    pub colours: Colours,
}

pub struct OsuFileView {
    pub general: GeneralView,
    pub metadata: MetadataView,
    pub difficulty: Difficulty,
    pub timing_points: Seq<TimingPoint>,
    pub hit_objects: Seq<HitObjectView>,
    pub colours: ColoursView,
}

pub open spec fn hit_object_views(v: Seq<HitObject>) -> Seq<HitObjectView> {
    v.map_values(|h: HitObject| h@)
}

impl View for OsuFile {
    type V = OsuFileView;

    open spec fn view(&self) -> OsuFileView {
        OsuFileView {
            general: self.general@,
            metadata: self.metadata@,
            difficulty: self.difficulty,
            timing_points: self.timing_points@,
            hit_objects: hit_object_views(self.hit_objects@),
            colours: self.colours@,
        }
    }
}

/// The chart before any line is read.
pub open spec fn empty_chart() -> OsuFileView {
    OsuFileView {
        general: default_general(),
        metadata: default_metadata(),
        difficulty: default_difficulty(),
        timing_points: Seq::empty(),
        hit_objects: Seq::empty(),
        colours: ColoursView { combos: Seq::empty(), others: Seq::empty() },
    }
}

/// A trimmed line that starts with `//`.
pub open spec fn is_comment(line: Seq<char>) -> bool {
    line.len() >= 2 && line[0] == '/' && line[1] == '/'
}

/// A trimmed line of the form `[Name]`.
pub open spec fn is_section_header(line: Seq<char>) -> bool {
    line.len() >= 2 && line[0] == '[' && line.last() == ']'
}

/// The section name and chart after one more line of text: blank lines and
/// comments are skipped, a header switches the section, and any other line
/// goes to the current section's reader; an unknown section ignores it.
pub open spec fn line_step(st: (Seq<char>, OsuFileView), raw: Seq<char>) -> (
    Seq<char>,
    OsuFileView,
) {
    let line = trim(raw);
    let section = st.0;
    let c = st.1;
    if line.len() == 0 || is_comment(line) {
        st
    } else if is_section_header(line) {
        (line.subrange(1, line.len() - 1), c)
    } else if section == "General"@ {
        (section, OsuFileView { general: key_value_step::<General>(c.general, line), ..c })
    } else if section == "Metadata"@ {
        (section, OsuFileView { metadata: key_value_step::<Metadata>(c.metadata, line), ..c })
    } else if section == "Difficulty"@ {
        (section, OsuFileView { difficulty: key_value_step::<Difficulty>(c.difficulty, line), ..c })
    } else if section == "TimingPoints"@ {
        (section, OsuFileView { timing_points: c.timing_points.push(timing_point_of(line)), ..c })
    } else if section == "HitObjects"@ {
        (section, OsuFileView { hit_objects: c.hit_objects.push(hit_object_of(line)), ..c })
    } else if section == "Colours"@ {
        (section, OsuFileView { colours: colour_step(c.colours, line), ..c })
    } else {
        st
    }
}

/// The section name and chart after the given lines, in order.
pub open spec fn parse_lines(lines: Seq<Seq<char>>) -> (Seq<char>, OsuFileView)
    decreases lines.len(),
{
    if lines.len() == 0 {
        (Seq::empty(), empty_chart())
    } else {
        line_step(parse_lines(lines.drop_last()), lines.last())
    }
}

/// The chart that `text` describes.
pub open spec fn chart_of(text: Seq<char>) -> OsuFileView {
    parse_lines(split_on(text, '\n')).1
}

impl OsuFile {
    pub open spec fn wf(&self) -> bool {
        self.colours.wf()
    }

    fn new() -> (r: OsuFile)
        ensures
            r@ == empty_chart(),
            r.wf(),
    {
        let r = OsuFile {
            general: General::default(),
            metadata: Metadata::default(),
            difficulty: Difficulty::default(),
            timing_points: Vec::new(),
            hit_objects: Vec::new(),
            colours: Colours::default(),
        };
        assert(r@.colours.combos =~= Seq::<Rgb>::empty());
        assert(r@.colours.others =~= Seq::<(Seq<char>, Rgb)>::empty());
        assert(r@.hit_objects =~= Seq::<HitObjectView>::empty());
        r
    }

    /// Applies one line of chart text under the section `section`.
    fn read_line(&mut self, section: &mut Vec<char>, raw: &[char])
        requires
            old(self).wf(),
        ensures
            final(self).wf(),
            (final(section)@, final(self)@) == line_step((old(section)@, old(self)@), raw@),
    {
        let line = trim_chars(raw);
        let n = line.len();
        if n == 0 || (n >= 2 && line[0] == '/' && line[1] == '/') {
            return;
        }
        if n >= 2 && line[0] == '[' && line[n - 1] == ']' {
            *section = slice_chars(&line, 1, n - 1);
            return;
        }
        if chars_eq(section, &chars_of("General")) {
            parse_key_value(&line, &mut self.general);
        } else if chars_eq(section, &chars_of("Metadata")) {
            parse_key_value(&line, &mut self.metadata);
        } else if chars_eq(section, &chars_of("Difficulty")) {
            parse_key_value(&line, &mut self.difficulty);
        } else if chars_eq(section, &chars_of("TimingPoints")) {
            self.timing_points.push(parse_timing_point(&line));
        } else if chars_eq(section, &chars_of("HitObjects")) {
            let h = parse_hit_object(&line);
            let ghost before = self.hit_objects@;
            self.hit_objects.push(h);
            assert(hit_object_views(self.hit_objects@) =~= hit_object_views(before).push(h@));
        } else if chars_eq(section, &chars_of("Colours")) {
            parse_colour(&line, &mut self.colours);
        }
    }
}

/// Reads a chart from its text. Never fails: malformed fields take their
/// defaults, unknown keys and sections are ignored.
pub fn parse_osu_text(text: &str) -> (r: OsuFile)
    ensures
        r@ == chart_of(text@),
        r.wf(),
{
    let chars = chars_of(text);
    let lines = split_chars(&chars, '\n');
    let ghost ls = char_vecs(lines@);
    let mut osu = OsuFile::new();
    let mut section: Vec<char> = Vec::new();
    let mut i: usize = 0;
    while i < lines.len()
        invariant
            i <= lines@.len(),
            ls == char_vecs(lines@),
            ls == split_on(text@, '\n'),
            osu.wf(),
            (section@, osu@) == parse_lines(ls.subrange(0, i as int)),
        decreases lines.len() - i,
    {
        let ghost prefix = ls.subrange(0, i as int + 1);
        assert(prefix.drop_last() =~= ls.subrange(0, i as int));
        osu.read_line(&mut section, &lines[i]);
        i = i + 1;
    }
    assert(ls.subrange(0, ls.len() as int) =~= ls);
    osu
}

/// A section name that the chart format knows.
pub open spec fn is_known_section(name: Seq<char>) -> bool {
    name == "General"@ || name == "Metadata"@ || name == "Difficulty"@ || name == "TimingPoints"@
        || name == "HitObjects"@ || name == "Colours"@
}

/// A line that is neither blank, a comment nor a section header, read while
/// the current section is one the format does not know, leaves the chart and
/// the section as they are.
pub proof fn lemma_unknown_section_ignored(st: (Seq<char>, OsuFileView), raw: Seq<char>)
    requires
        !is_known_section(st.0),
        !is_section_header(trim(raw)),
    ensures
        line_step(st, raw) == st,
{
}

/// A `Key: Value` line whose key the section does not know leaves the record
/// as it is, in each of the three key-value sections.
pub proof fn lemma_unknown_key_ignored(
    g: GeneralView,
    m: MetadataView,
    d: Difficulty,
    key: Seq<char>,
    value: Seq<char>,
)
    requires
        key != "AudioFilename"@ && key != "AudioLeadIn"@ && key != "Mode"@,
        key != "Title"@ && key != "Artist"@ && key != "Creator"@ && key != "Version"@,
        key != "HPDrainRate"@ && key != "CircleSize"@ && key != "OverallDifficulty"@ && key
            != "ApproachRate"@ && key != "SliderMultiplier"@ && key != "SliderTickRate"@,
    ensures
        <General as ParseKeyValue>::with_field(g, key, value) == g,
        <Metadata as ParseKeyValue>::with_field(m, key, value) == m,
        <Difficulty as ParseKeyValue>::with_field(d, key, value) == d,
{
}

/// A malformed difficulty value never fails the parse: the setting takes its
/// default, 5 for the four ratings and 1 for the slider settings.
pub proof fn lemma_malformed_difficulty_default(d: Difficulty, value: Seq<char>)
    requires
        decimal_of(value) is None,
    ensures
        <Difficulty as ParseKeyValue>::with_field(d, "HPDrainRate"@, value).hp_drain_rate == whole(5),
        <Difficulty as ParseKeyValue>::with_field(d, "CircleSize"@, value).circle_size == whole(5),
        <Difficulty as ParseKeyValue>::with_field(d, "OverallDifficulty"@, value).overall_difficulty
            == whole(5),
        <Difficulty as ParseKeyValue>::with_field(d, "ApproachRate"@, value).approach_rate == whole(5),
        <Difficulty as ParseKeyValue>::with_field(d, "SliderMultiplier"@, value).slider_multiplier
            == whole(1),
        <Difficulty as ParseKeyValue>::with_field(d, "SliderTickRate"@, value).slider_tick_rate
            == whole(1),
{
    reveal_strlit("HPDrainRate");
    reveal_strlit("CircleSize");
    reveal_strlit("OverallDifficulty");
    reveal_strlit("ApproachRate");
    reveal_strlit("SliderMultiplier");
    reveal_strlit("SliderTickRate");
    let names = seq![
        "HPDrainRate"@,
        "CircleSize"@,
        "OverallDifficulty"@,
        "ApproachRate"@,
        "SliderMultiplier"@,
    ];
    assert(names[0][0] != names[1][0] && names[0][0] != names[2][0] && names[0][0] != names[3][0]
        && names[0][0] != names[4][0]);
    assert(names[1][0] != names[2][0] && names[1][0] != names[3][0] && names[1][0] != names[4][0]);
    assert(names[2][0] != names[3][0] && names[2][0] != names[4][0]);
    assert(names[3][0] != names[4][0]);
    assert("SliderTickRate"@[6] != names[4][6]);
    assert("SliderTickRate"@[0] != names[0][0] && "SliderTickRate"@[0] != names[1][0]
        && "SliderTickRate"@[0] != names[2][0] && "SliderTickRate"@[0] != names[3][0]);
}

/// A malformed or missing field of a timing-point line takes its default:
/// here the meter, 4, and the volume, 100.
pub proof fn lemma_malformed_timing_default(line: Seq<char>)
    ensures
        (split_on(line, ',').len() <= 2 || i32_of(split_on(line, ',')[2]) is None)
            ==> timing_point_of(line).meter == 4,
        (split_on(line, ',').len() <= 5 || i32_of(split_on(line, ',')[5]) is None)
            ==> timing_point_of(line).volume == 100,
{
}

/// A malformed or missing coordinate or time of a hit-object line reads as 0.
pub proof fn lemma_malformed_hit_object_default(line: Seq<char>)
    ensures
        (split_on(line, ',').len() <= 0 || i32_of(split_on(line, ',')[0]) is None)
            ==> hit_object_of(line).x == 0,
        (split_on(line, ',').len() <= 1 || i32_of(split_on(line, ',')[1]) is None)
            ==> hit_object_of(line).y == 0,
        (split_on(line, ',').len() <= 2 || i32_of(split_on(line, ',')[2]) is None)
            ==> hit_object_of(line).time == 0,
{
}

} // verus!
