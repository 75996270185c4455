//! `ParametricEQ` headphone profiles: the grammar of the file, its limits, and
//! the listener's own two knobs on top of one.
//!
//! Numbers are carried as bit patterns. Turning a number's text into a pattern
//! and back, and designing filters, is the application's part.
use crate::numeric::{
    below, clamp, clamped, finite_double, is_finite_double, is_nan, is_positive_double, magnitude,
    negate, negated, positive_double, SIGN,
};
use crate::text::{decimal, push_decimal, text_of};
use crate::words::{
    alike, folded, is_alike, is_space, is_word, lemma_rows_joined, lemma_words_joined,
    lemma_words_single, rows, spelled, split_rows, split_words, trim, trimmed, words,
};
use vstd::prelude::*;
use vstd::string::*;

verus! {

/// The renderer's cascade has a fixed length, and a profile that asks for more
/// is refused rather than shortened.
pub const MAX_BANDS: usize = 32;

/// `Q` of a filter line that omits it: 0.707 in double precision.
pub const DEFAULT_Q: u64 = 0x3fe6_9fbe_76c8_b439;

/// Six decibels, in single precision.
pub const BASS_LIMIT_DB: u32 = 0x40c0_0000;

/// Two decibels per octave, in single precision.
pub const TILT_LIMIT_DB: u32 = 0x4000_0000;

/// How many shelves make up a tilt.
pub const TILT_SHELVES: u32 = 3;

/// What the listener adds on top of a profile, in single precision.
#[derive(Clone, Copy, Debug, PartialEq, Eq, Structural)]
pub struct Adjustment {
    /// Gain of the bass shelf, in decibels.
    pub bass_db: u32,
    /// Slope in decibels per octave.
    pub tilt_db_per_octave: u32,
}

/// One band that an adjustment appends to a cascade.
#[derive(Clone, Copy, Debug, PartialEq, Eq, Structural)]
pub enum AddedBand {
    Bass,
    /// One of the shelves of the tilt, counted from the lowest.
    TiltShelf(u32),
}

impl Default for Adjustment {
    fn default() -> (r: Self)
        ensures
            r == (Adjustment { bass_db: 0, tilt_db_per_octave: 0 }),
    {
        Adjustment { bass_db: 0, tilt_db_per_octave: 0 }
    }
}

impl Adjustment {
    /// Both knobs brought into their travel.
    pub open spec fn within_travel(self) -> Adjustment {
        Adjustment {
            bass_db: clamped(self.bass_db, negated(BASS_LIMIT_DB), BASS_LIMIT_DB),
            tilt_db_per_octave: clamped(
                self.tilt_db_per_octave,
                negated(TILT_LIMIT_DB),
                TILT_LIMIT_DB,
            ),
        }
    }

    pub fn clamped(self) -> (r: Self)
        ensures
            r == self.within_travel(),
    {
        Adjustment {
            bass_db: clamp(self.bass_db, negate(BASS_LIMIT_DB), BASS_LIMIT_DB),
            tilt_db_per_octave: clamp(
                self.tilt_db_per_octave,
                negate(TILT_LIMIT_DB),
                TILT_LIMIT_DB,
            ),
        }
    }

    /// Nothing to add.
    pub fn is_flat(self) -> (r: bool)
        ensures
            r == (magnitude(self.bass_db) == 0 && magnitude(self.tilt_db_per_octave) == 0),
    {
        self.bass_db % SIGN == 0 && self.tilt_db_per_octave % SIGN == 0
    }

    /// The bands that this adjustment appends to a cascade: a shelf where the
    /// bass knob is off zero, and the whole stack where the tilt is.
    pub open spec fn added(self) -> Seq<AddedBand> {
        (if magnitude(self.bass_db) == 0 {
            Seq::empty()
        } else {
            seq![AddedBand::Bass]
        }) + (if magnitude(self.tilt_db_per_octave) == 0 {
            Seq::empty()
        } else {
            Seq::new(TILT_SHELVES as nat, |i: int| AddedBand::TiltShelf(i as u32))
        })
    }

    pub fn bands(self) -> (r: Vec<AddedBand>)
        ensures
            r@ == self.added(),
    {
        let mut bands: Vec<AddedBand> = Vec::new();
        if self.bass_db % SIGN != 0 {
            bands.push(AddedBand::Bass);
        }
        let ghost bass = bands@;
        if self.tilt_db_per_octave % SIGN != 0 {
            let mut index: u32 = 0;
            while index < TILT_SHELVES
                invariant
                    index <= TILT_SHELVES,
                    bands@ =~= bass + Seq::new(index as nat, |i: int| AddedBand::TiltShelf(i as u32)),
                decreases TILT_SHELVES - index,
            {
                bands.push(AddedBand::TiltShelf(index));
                index = index + 1;
            }
        }
        assert(bands@ =~= self.added());
        bands
    }
}

#[derive(Clone, Copy, PartialEq, Eq, Debug, Structural)]
pub enum BandType {
    Peaking,
    LowShelf,
    HighShelf,
    LowPass,
    HighPass,
    BandPass,
    Notch,
}

impl BandType {
    /// The type that a word names, if it names one.
    pub open spec fn named(word: Seq<char>) -> Option<BandType> {
        if alike(word, "PK"@) || alike(word, "PEQ"@) || alike(word, "MODAL"@) {
            Some(BandType::Peaking)
        } else if alike(word, "LSC"@) || alike(word, "LS"@) || alike(word, "LSQ"@) {
            Some(BandType::LowShelf)
        } else if alike(word, "HSC"@) || alike(word, "HS"@) || alike(word, "HSQ"@) {
            Some(BandType::HighShelf)
        } else if alike(word, "LP"@) || alike(word, "LPQ"@) {
            Some(BandType::LowPass)
        } else if alike(word, "HP"@) || alike(word, "HPQ"@) {
            Some(BandType::HighPass)
        } else if alike(word, "BP"@) {
            Some(BandType::BandPass)
        } else if alike(word, "NO"@) {
            Some(BandType::Notch)
        } else {
            None
        }
    }

    pub fn parse(token: &Vec<char>) -> (r: Option<Self>)
        ensures
            r == BandType::named(token@),
    {
        if is_alike(token, "PK") || is_alike(token, "PEQ") || is_alike(token, "MODAL") {
            Some(BandType::Peaking)
        } else if is_alike(token, "LSC") || is_alike(token, "LS") || is_alike(token, "LSQ") {
            Some(BandType::LowShelf)
        } else if is_alike(token, "HSC") || is_alike(token, "HS") || is_alike(token, "HSQ") {
            Some(BandType::HighShelf)
        } else if is_alike(token, "LP") || is_alike(token, "LPQ") {
            Some(BandType::LowPass)
        } else if is_alike(token, "HP") || is_alike(token, "HPQ") {
            Some(BandType::HighPass)
        } else if is_alike(token, "BP") {
            Some(BandType::BandPass)
        } else if is_alike(token, "NO") {
            Some(BandType::Notch)
        } else {
            None
        }
    }

    /// The word that stands for the type in a file that is written.
    pub open spec fn word(self) -> Seq<char> {
        match self {
            BandType::Peaking => "PK"@,
            BandType::LowShelf => "LSC"@,
            BandType::HighShelf => "HSC"@,
            BandType::LowPass => "LP"@,
            BandType::HighPass => "HP"@,
            BandType::BandPass => "BP"@,
            BandType::Notch => "NO"@,
        }
    }

    pub fn token(self) -> (r: &'static str)
        ensures
            r@ == self.word(),
    {
        match self {
            BandType::Peaking => "PK",
            BandType::LowShelf => "LSC",
            BandType::HighShelf => "HSC",
            BandType::LowPass => "LP",
            BandType::HighPass => "HP",
            BandType::BandPass => "BP",
            BandType::Notch => "NO",
        }
    }

    pub open spec fn title(self) -> Seq<char> {
        match self {
            BandType::Peaking => "Peaking"@,
            BandType::LowShelf => "LowShelf"@,
            BandType::HighShelf => "HighShelf"@,
            BandType::LowPass => "LowPass"@,
            BandType::HighPass => "HighPass"@,
            BandType::BandPass => "BandPass"@,
            BandType::Notch => "Notch"@,
        }
    }

    /// The type as messages name it.
    pub fn name(self) -> (r: &'static str)
        ensures
            r@ == self.title(),
    {
        match self {
            BandType::Peaking => "Peaking",
            BandType::LowShelf => "LowShelf",
            BandType::HighShelf => "HighShelf",
            BandType::LowPass => "LowPass",
            BandType::HighPass => "HighPass",
            BandType::BandPass => "BandPass",
            BandType::Notch => "Notch",
        }
    }
}

/// One band; its numbers are double-precision patterns.
#[derive(Clone, Copy, Debug, PartialEq, Eq, Structural)]
pub struct Band {
    pub kind: BandType,
    pub fc: u64,
    pub gain_db: u64,
    pub q: u64,
}

/// What a line says for one key.
#[derive(Debug)]
pub enum Entry<T> {
    /// The key does not occur.
    Absent,
    /// Nothing follows the key.
    Nothing,
    Given(T),
}

/// A line that a profile is made of. `text` is the whole line, for messages.
#[derive(Debug)]
pub enum Line<S, T> {
    Preamp { text: S, value: Entry<T> },
    Filter {
        text: S,
        enabled: bool,
        kind: BandType,
        fc: Entry<T>,
        gain_db: Entry<T>,
        q: Entry<T>,
    },
}

/// A line whose numbers are still words.
pub type WordLine = Line<String, String>;

/// A line whose numbers were read; a word that is no number reads as `None`.
pub type NumberLine = Line<String, Option<u64>>;

/// A line by its characters.
pub type LineModel = Line<Seq<char>, Seq<char>>;

pub open spec fn entry_model(entry: Entry<String>) -> Entry<Seq<char>> {
    match entry {
        Entry::Absent => Entry::Absent,
        Entry::Nothing => Entry::Nothing,
        Entry::Given(word) => Entry::Given(word@),
    }
}

pub open spec fn line_model(line: WordLine) -> LineModel {
    match line {
        Line::Preamp { text, value } => Line::Preamp { text: text@, value: entry_model(value) },
        Line::Filter { text, enabled, kind, fc, gain_db, q } => Line::Filter {
            text: text@,
            enabled,
            kind,
            fc: entry_model(fc),
            gain_db: entry_model(gain_db),
            q: entry_model(q),
        },
    }
}

/// The place of the first word that is like `a` or `b`; behind the last word
/// where none is.
pub open spec fn place(words: Seq<Seq<char>>, a: Seq<char>, b: Seq<char>) -> nat
    decreases words.len(),
{
    if words.len() == 0 || alike(words[0], a) || alike(words[0], b) {
        0
    } else {
        1 + place(words.drop_first(), a, b)
    }
}

/// What stands behind the first occurrence of a key.
pub open spec fn entry_for(words: Seq<Seq<char>>, key: Seq<char>) -> Entry<Seq<char>> {
    let at = place(words, key, key) as int;
    if at >= words.len() {
        Entry::Absent
    } else if at + 1 < words.len() {
        Entry::Given(words[at + 1])
    } else {
        Entry::Nothing
    }
}

/// What a row contributes. Blank rows, comments and rows of any other kind
/// contribute nothing, nor does a filter without a switch or of an unknown type.
pub open spec fn line_of(row: Seq<char>) -> Option<LineModel> {
    let text = trimmed(row);
    let tokens = words(text);
    let switch = place(tokens, "ON"@, "OFF"@) as int;
    if text.len() == 0 || text[0] == '#' || tokens.len() == 0 {
        None
    } else if alike(tokens[0], "Preamp:"@) || alike(tokens[0], "Preamp"@) {
        Some(
            Line::Preamp {
                text,
                value: if tokens.len() > 1 {
                    Entry::Given(tokens[1])
                } else {
                    Entry::Nothing
                },
            },
        )
    } else if !alike(tokens[0], "Filter"@) || switch + 1 >= tokens.len() || BandType::named(
        tokens[switch + 1],
    ) is None {
        None
    } else {
        Some(
            Line::Filter {
                text,
                enabled: alike(tokens[switch], "ON"@),
                kind: BandType::named(tokens[switch + 1])->0,
                fc: entry_for(tokens, "Fc"@),
                gain_db: entry_for(tokens, "Gain"@),
                q: entry_for(tokens, "Q"@),
            },
        )
    }
}

/// What the rows contribute, in their order.
pub open spec fn lines_of(rows: Seq<Seq<char>>) -> Seq<LineModel>
    decreases rows.len(),
{
    if rows.len() == 0 {
        Seq::empty()
    } else {
        let rest = lines_of(rows.drop_first());
        match line_of(rows[0]) {
            Some(line) => seq![line] + rest,
            None => rest,
        }
    }
}

fn find(words: &Vec<Vec<char>>, a: &str, b: &str) -> (r: usize)
    ensures
        r == place(spelled(words@), a@, b@),
        r <= words.len(),
{
    let ghost all = spelled(words@);
    let mut at: usize = 0;
    assert(all.skip(0) =~= all);
    while at < words.len()
        invariant
            at <= words.len(),
            all == spelled(words@),
            place(all, a@, b@) == at + place(all.skip(at as int), a@, b@),
        decreases words.len() - at,
    {
        let ghost rest = all.skip(at as int);
        assert(rest[0] == words@[at as int]@);
        if is_alike(&words[at], a) || is_alike(&words[at], b) {
            return at;
        }
        assert(rest.drop_first() =~= all.skip(at + 1));
        at = at + 1;
    }
    at
}

fn written(word: &Vec<char>) -> (r: String)
    ensures
        r@ == word@,
{
    let r = text_of(word, 0, word.len());
    assert(word@.subrange(0, word@.len() as int) =~= word@);
    r
}

fn read_entry(words: &Vec<Vec<char>>, key: &str) -> (r: Entry<String>)
    ensures
        entry_model(r) == entry_for(spelled(words@), key@),
{
    let at: usize = find(words, key, key);
    if at >= words.len() {
        Entry::Absent
    } else if at + 1 < words.len() {
        assert(spelled(words@)[at + 1] == words@[at + 1]@);
        Entry::Given(written(&words[at + 1]))
    } else {
        Entry::Nothing
    }
}

fn read_line(row: &Vec<char>) -> (r: Option<WordLine>)
    ensures
        match r {
            Some(line) => line_of(row@) == Some(line_model(line)),
            None => line_of(row@) is None,
        },
{
    let text = trim(row);
    if text.len() == 0 || text[0] == '#' {
        return None;
    }
    let tokens = split_words(&text);
    let ghost all = spelled(tokens@);
    if tokens.len() == 0 {
        return None;
    }
    assert(all[0] == tokens@[0]@);
    if is_alike(&tokens[0], "Preamp:") || is_alike(&tokens[0], "Preamp") {
        let value = if tokens.len() > 1 {
            assert(all[1] == tokens@[1]@);
            Entry::Given(written(&tokens[1]))
        } else {
            Entry::Nothing
        };
        return Some(Line::Preamp { text: written(&text), value });
    }
    if !is_alike(&tokens[0], "Filter") {
        return None;
    }
    let switch: usize = find(&tokens, "ON", "OFF");
    if switch >= tokens.len() || switch + 1 >= tokens.len() {
        return None;
    }
    assert(all[switch as int] == tokens@[switch as int]@);
    assert(all[switch + 1] == tokens@[switch + 1]@);
    match BandType::parse(&tokens[switch + 1]) {
        Some(kind) => Some(
            Line::Filter {
                text: written(&text),
                enabled: is_alike(&tokens[switch], "ON"),
                kind,
                fc: read_entry(&tokens, "Fc"),
                gain_db: read_entry(&tokens, "Gain"),
                q: read_entry(&tokens, "Q"),
            },
        ),
        None => None,
    }
}

/// The lines of a profile's text, with their numbers as words.
pub fn lines(text: &str) -> (r: Vec<WordLine>)
    ensures
        r@.map_values(|l: WordLine| line_model(l)) == lines_of(rows(text@)),
{
    let all = split_rows(&crate::text::chars_of(text));
    let ghost spelt = spelled(all@);
    let mut out: Vec<WordLine> = Vec::new();
    let mut at: usize = 0;
    assert(spelt.skip(0) =~= spelt);
    assert(out@.map_values(|l: WordLine| line_model(l)) + lines_of(spelt) =~= lines_of(spelt));
    while at < all.len()
        invariant
            at <= all.len(),
            spelt == spelled(all@),
            spelt == rows(text@),
            out@.map_values(|l: WordLine| line_model(l)) + lines_of(spelt.skip(at as int))
                == lines_of(spelt),
        decreases all.len() - at,
    {
        let ghost rest = spelt.skip(at as int);
        assert(rest[0] == all@[at as int]@);
        assert(rest.drop_first() =~= spelt.skip(at + 1));
        let ghost before = out@.map_values(|l: WordLine| line_model(l));
        if let Some(line) = read_line(&all[at]) {
            out.push(line);
            assert(out@.map_values(|l: WordLine| line_model(l)) =~= before.push(line_model(line)));
            assert(before.push(line_model(line)) + lines_of(spelt.skip(at + 1)) =~= before + (seq![
                line_model(line),
            ] + lines_of(spelt.skip(at + 1))));
        }
        at = at + 1;
    }
    assert(spelt.skip(at as int).len() == 0);
    assert(out@.map_values(|l: WordLine| line_model(l)) + Seq::<LineModel>::empty()
        =~= out@.map_values(|l: WordLine| line_model(l)));
    out
}

/// A parsed profile. Its numbers are double-precision patterns.
#[derive(Debug)]
pub struct Profile {
    pub preamp_db: u64,
    pub bands: Vec<Band>,
}

/// The number of an entry, with what an absent key stands for.
pub open spec fn number(entry: Entry<Option<u64>>, fallback: Option<u64>) -> Option<u64> {
    match entry {
        Entry::Absent => fallback,
        Entry::Nothing => None,
        Entry::Given(value) => value,
    }
}

fn read_number(entry: &Entry<Option<u64>>, fallback: Option<u64>) -> (r: Option<u64>)
    ensures
        r == number(*entry, fallback),
{
    match entry {
        Entry::Absent => fallback,
        Entry::Nothing => None,
        Entry::Given(value) => *value,
    }
}

/// What is wrong with a line, if anything is. A line that is switched off is
/// held to the same rules.
pub open spec fn trouble(line: NumberLine) -> Option<Seq<char>> {
    match line {
        Line::Preamp { text, value } => match number(value, None) {
            None => Some("Preamp is not a number: "@ + text@),
            Some(preamp) => if is_finite_double(preamp) {
                None
            } else {
                Some("Preamp must be a finite number: "@ + text@)
            },
        },
        Line::Filter { text, fc, gain_db, q, .. } => {
            let fc = number(fc, None);
            let gain_db = number(gain_db, Some(0));
            let q = number(q, Some(DEFAULT_Q));
            if fc is None {
                Some("Filter line has no readable Fc: "@ + text@)
            } else if gain_db is None {
                Some("Gain is not a number: "@ + text@)
            } else if q is None {
                Some("Q is not a number: "@ + text@)
            } else if !is_positive_double(fc->0) {
                Some("Fc must be a finite positive number: "@ + text@)
            } else if !is_positive_double(q->0) {
                Some("Q must be a finite positive number: "@ + text@)
            } else if !is_finite_double(gain_db->0) {
                Some("Gain must be a finite number: "@ + text@)
            } else {
                None
            }
        },
    }
}

/// The band of a filter line.
pub open spec fn band_of(line: NumberLine) -> Option<Band> {
    match line {
        Line::Filter { enabled, kind, fc, gain_db, q, .. } => if enabled {
            Some(
                Band {
                    kind,
                    fc: number(fc, None)->0,
                    gain_db: number(gain_db, Some(0))->0,
                    q: number(q, Some(DEFAULT_Q))->0,
                },
            )
        } else {
            None
        },
        _ => None,
    }
}

/// The bands that are switched on, in the order of their lines.
pub open spec fn cascade_of(lines: Seq<NumberLine>) -> Seq<Band>
    decreases lines.len(),
{
    if lines.len() == 0 {
        Seq::empty()
    } else {
        match band_of(lines.last()) {
            Some(band) => cascade_of(lines.drop_last()).push(band),
            None => cascade_of(lines.drop_last()),
        }
    }
}

/// The preamp of the last line that gives one; zero where none does.
pub open spec fn preamp_of(lines: Seq<NumberLine>) -> u64
    decreases lines.len(),
{
    if lines.len() == 0 {
        0
    } else {
        match lines.last() {
            Line::Preamp { value, .. } => number(value, None)->0,
            _ => preamp_of(lines.drop_last()),
        }
    }
}

/// The message about the first line that is wrong.
pub open spec fn first_trouble(lines: Seq<NumberLine>) -> Option<Seq<char>>
    decreases lines.len(),
{
    if lines.len() == 0 {
        None
    } else {
        match first_trouble(lines.drop_last()) {
            Some(message) => Some(message),
            None => trouble(lines.last()),
        }
    }
}

/// Why the lines make up no profile, if they do not.
pub open spec fn refusal(lines: Seq<NumberLine>) -> Option<Seq<char>> {
    if first_trouble(lines) is Some {
        first_trouble(lines)
    } else if lines.len() == 0 {
        Some("No Preamp or Filter line found"@)
    } else if cascade_of(lines).len() > MAX_BANDS {
        Some("More than 32 filters are enabled: "@ + decimal(cascade_of(lines).len()))
    } else {
        None
    }
}

fn about(message: &str, text: &String) -> (r: String)
    ensures
        r@ == message@ + text@,
{
    let mut out = message.to_owned();
    out.append(text.as_str());
    out
}

fn check(line: &NumberLine) -> (r: Option<String>)
    ensures
        match r {
            Some(message) => trouble(*line) == Some(message@),
            None => trouble(*line) is None,
        },
{
    match line {
        Line::Preamp { text, value } => match read_number(value, None) {
            None => Some(about("Preamp is not a number: ", text)),
            Some(preamp) => if finite_double(preamp) {
                None
            } else {
                Some(about("Preamp must be a finite number: ", text))
            },
        },
        Line::Filter { text, fc, gain_db, q, .. } => {
            let fc = match read_number(fc, None) {
                Some(fc) => fc,
                None => {
                    return Some(about("Filter line has no readable Fc: ", text));
                },
            };
            let gain_db = match read_number(gain_db, Some(0)) {
                Some(gain_db) => gain_db,
                None => {
                    return Some(about("Gain is not a number: ", text));
                },
            };
            let q = match read_number(q, Some(DEFAULT_Q)) {
                Some(q) => q,
                None => {
                    return Some(about("Q is not a number: ", text));
                },
            };
            if !positive_double(fc) {
                Some(about("Fc must be a finite positive number: ", text))
            } else if !positive_double(q) {
                Some(about("Q must be a finite positive number: ", text))
            } else if !finite_double(gain_db) {
                Some(about("Gain must be a finite number: ", text))
            } else {
                None
            }
        },
    }
}

/// Two readings of one number.
#[derive(Debug)]
pub struct Comparison {
    /// They lie further apart than reading the same text twice explains.
    pub differs: bool,
    pub ours: String,
    pub theirs: String,
}

/// Two readings of one band's numbers.
#[derive(Debug)]
pub struct BandComparison {
    pub fc: Comparison,
    pub gain_db: Comparison,
    pub q: Comparison,
}

/// The message about one number of a band, where its two readings differ.
pub open spec fn field_difference(
    band: nat,
    label: Seq<char>,
    numbers: Comparison,
) -> Option<Seq<char>> {
    if numbers.differs {
        Some(
            "Reading filter "@ + decimal(band) + "'s "@ + label + " as "@ + numbers.ours@
                + ", but the renderer reads "@ + numbers.theirs@ + "."@,
        )
    } else {
        None
    }
}

/// The message about one band, where its two readings differ.
pub open spec fn band_difference(
    band: nat,
    ours: Band,
    theirs: Band,
    numbers: BandComparison,
) -> Option<Seq<char>> {
    if ours.kind != theirs.kind {
        Some(
            "Reading filter "@ + decimal(band) + " as "@ + ours.kind.title()
                + ", but the renderer reads "@ + theirs.kind.title() + "."@,
        )
    } else if numbers.fc.differs {
        field_difference(band, "Fc"@, numbers.fc)
    } else if numbers.gain_db.differs {
        field_difference(band, "gain"@, numbers.gain_db)
    } else {
        field_difference(band, "Q"@, numbers.q)
    }
}

/// The message about the first of the first `count` bands that differs.
pub open spec fn cascade_difference(
    ours: Seq<Band>,
    theirs: Seq<Band>,
    numbers: Seq<BandComparison>,
    count: nat,
) -> Option<Seq<char>>
    decreases count,
{
    if count == 0 {
        None
    } else {
        match cascade_difference(ours, theirs, numbers, (count - 1) as nat) {
            Some(message) => Some(message),
            None => band_difference(count, ours[count - 1], theirs[count - 1], numbers[count - 1]),
        }
    }
}

fn tell_field(band: u64, label: &str, numbers: &Comparison) -> (r: Option<String>)
    ensures
        match r {
            Some(message) => field_difference(band as nat, label@, *numbers) == Some(message@),
            None => field_difference(band as nat, label@, *numbers) is None,
        },
{
    if !numbers.differs {
        return None;
    }
    let mut out = "Reading filter ".to_owned();
    push_decimal(&mut out, band);
    out.append("'s ");
    out.append(label);
    out.append(" as ");
    out.append(numbers.ours.as_str());
    out.append(", but the renderer reads ");
    out.append(numbers.theirs.as_str());
    out.append(".");
    Some(out)
}

fn tell_band(band: u64, ours: &Band, theirs: &Band, numbers: &BandComparison) -> (r: Option<String>)
    ensures
        match r {
            Some(message) => band_difference(band as nat, *ours, *theirs, *numbers) == Some(
                message@,
            ),
            None => band_difference(band as nat, *ours, *theirs, *numbers) is None,
        },
{
    if ours.kind != theirs.kind {
        let mut out = "Reading filter ".to_owned();
        push_decimal(&mut out, band);
        out.append(" as ");
        out.append(ours.kind.name());
        out.append(", but the renderer reads ");
        out.append(theirs.kind.name());
        out.append(".");
        return Some(out);
    }
    if numbers.fc.differs {
        tell_field(band, "Fc", &numbers.fc)
    } else if numbers.gain_db.differs {
        tell_field(band, "gain", &numbers.gain_db)
    } else {
        tell_field(band, "Q", &numbers.q)
    }
}

impl Profile {
    /// A profile from its lines, or the message about the first thing that
    /// stands in its way.
    pub fn parse(lines: &Vec<NumberLine>) -> (r: Result<Self, String>)
        ensures
            match r {
                Ok(profile) => refusal(lines@) is None && profile.preamp_db == preamp_of(lines@)
                    && profile.bands@ == cascade_of(lines@),
                Err(message) => refusal(lines@) == Some(message@),
            },
    {
        let mut preamp_db: u64 = 0;
        let mut bands: Vec<Band> = Vec::new();
        let mut at: usize = 0;
        while at < lines.len()
            invariant
                at <= lines.len(),
                bands.len() <= at,
                first_trouble(lines@.take(at as int)) is None,
                preamp_db == preamp_of(lines@.take(at as int)),
                bands@ == cascade_of(lines@.take(at as int)),
            decreases lines.len() - at,
        {
            let line = &lines[at];
            proof {
                let so_far = lines@.take(at + 1);
                assert(so_far.last() == *line);
                assert(so_far.drop_last() =~= lines@.take(at as int));
            }
            if let Some(message) = check(line) {
                proof {
                    lemma_first_trouble_stays(lines@, at + 1);
                }
                return Err(message);
            }
            match line {
                Line::Preamp { value, .. } => {
                    if let Some(value) = read_number(value, None) {
                        preamp_db = value;
                    }
                },
                Line::Filter { enabled, kind, fc, gain_db, q, .. } => {
                    if *enabled {
                        if let (Some(fc), Some(gain_db), Some(q)) = (
                            read_number(fc, None),
                            read_number(gain_db, Some(0)),
                            read_number(q, Some(DEFAULT_Q)),
                        ) {
                            bands.push(Band { kind: *kind, fc, gain_db, q });
                        }
                    }
                },
            }
            at = at + 1;
        }
        assert(lines@.take(at as int) =~= lines@);
        if lines.len() == 0 {
            return Err("No Preamp or Filter line found".to_owned());
        }
        if bands.len() > MAX_BANDS {
            let mut message = "More than 32 filters are enabled: ".to_owned();
            push_decimal(&mut message, bands.len() as u64);
            return Err(message);
        }
        Ok(Profile { preamp_db, bands })
    }

    /// A cascade that someone else parsed.
    pub fn of_bands(preamp_db: u64, bands: Vec<Band>) -> (r: Self)
        ensures
            r.preamp_db == preamp_db,
            r.bands == bands,
    {
        Profile { preamp_db, bands }
    }

    /// This profile with the bands of an adjustment behind its own, and with the
    /// preamp of the two together. Refused where the cascade would not hold them.
    pub fn with(&self, extra: &Vec<Band>, preamp_db: u64) -> (r: Result<Self, String>)
        ensures
            match r {
                Ok(profile) => self.bands@.len() + extra@.len() <= MAX_BANDS && profile.preamp_db
                    == preamp_db && profile.bands@ == self.bands@ + extra@,
                Err(message) => self.bands@.len() + extra@.len() > MAX_BANDS && message@
                    == "This profile uses "@ + decimal(self.bands@.len())
                    + " of 32 filters and the adjustment needs "@ + decimal(extra@.len())
                    + " more"@,
            },
    {
        if self.bands.len() > MAX_BANDS || extra.len() > MAX_BANDS - self.bands.len() {
            let mut message = "This profile uses ".to_owned();
            push_decimal(&mut message, self.bands.len() as u64);
            message.append(" of 32 filters and the adjustment needs ");
            push_decimal(&mut message, extra.len() as u64);
            message.append(" more");
            return Err(message);
        }
        let mut bands: Vec<Band> = Vec::new();
        let mut at: usize = 0;
        while at < self.bands.len()
            invariant
                at <= self.bands.len(),
                bands@ =~= self.bands@.take(at as int),
            decreases self.bands.len() - at,
        {
            bands.push(self.bands[at]);
            at = at + 1;
        }
        let mut more: usize = 0;
        while more < extra.len()
            invariant
                more <= extra.len(),
                bands@ =~= self.bands@ + extra@.take(more as int),
            decreases extra.len() - more,
        {
            bands.push(extra[more]);
            more = more + 1;
        }
        assert(extra@.take(more as int) =~= extra@);
        Ok(Profile { preamp_db, bands })
    }

    /// The first difference between this reading and the renderer's, named down
    /// to the band and the field. `numbers` compares the bands one by one.
    pub fn disagreement(
        &self,
        renderer: &Self,
        preamp: &Comparison,
        numbers: &Vec<BandComparison>,
    ) -> (r: Option<String>)
        requires
            self.bands@.len() == renderer.bands@.len() ==> numbers@.len() == self.bands@.len(),
        ensures
            chars_of_message(r) == (if preamp.differs {
                Some(
                    "Reading a preamp of "@ + preamp.ours@ + " dB, but the renderer reads "@
                        + preamp.theirs@ + " dB."@,
                )
            } else if self.bands@.len() != renderer.bands@.len() {
                Some(
                    "Reading "@ + decimal(self.bands@.len())
                        + " enabled filters, but the renderer reads "@ + decimal(
                        renderer.bands@.len(),
                    ) + "."@,
                )
            } else {
                cascade_difference(self.bands@, renderer.bands@, numbers@, self.bands@.len())
            }),
    {
        if preamp.differs {
            let mut out = "Reading a preamp of ".to_owned();
            out.append(preamp.ours.as_str());
            out.append(" dB, but the renderer reads ");
            out.append(preamp.theirs.as_str());
            out.append(" dB.");
            return Some(out);
        }
        if self.bands.len() != renderer.bands.len() {
            let mut out = "Reading ".to_owned();
            push_decimal(&mut out, self.bands.len() as u64);
            out.append(" enabled filters, but the renderer reads ");
            push_decimal(&mut out, renderer.bands.len() as u64);
            out.append(".");
            return Some(out);
        }
        let mut at: usize = 0;
        while at < self.bands.len()
            invariant
                at <= self.bands.len() == renderer.bands.len() == numbers.len(),
                !preamp.differs,
                cascade_difference(self.bands@, renderer.bands@, numbers@, at as nat) is None,
            decreases self.bands.len() - at,
        {
            if let Some(message) = tell_band(
                at as u64 + 1,
                &self.bands[at],
                &renderer.bands[at],
                &numbers[at],
            ) {
                proof {
                    lemma_first_difference_stays(
                        self.bands@,
                        renderer.bands@,
                        numbers@,
                        (at + 1) as nat,
                        self.bands@.len(),
                    );
                }
                return Some(message);
            }
            at = at + 1;
        }
        None
    }

    /// The bands that reach the audio, in file order.
    pub fn cascade(&self) -> (r: &Vec<Band>)
        ensures
            *r == self.bands,
    {
        &self.bands
    }

    /// How many bands reach the audio.
    pub fn bands(&self) -> (r: u32)
        ensures
            r == (if self.bands@.len() <= u32::MAX {
                self.bands@.len() as u32
            } else {
                u32::MAX
            }),
    {
        let count: u64 = self.bands.len() as u64;
        if count <= u32::MAX as u64 {
            count as u32
        } else {
            u32::MAX
        }
    }
}

/// A message by its characters.
pub open spec fn chars_of_message(message: Option<String>) -> Option<Seq<char>> {
    match message {
        Some(message) => Some(message@),
        None => None,
    }
}

proof fn lemma_first_trouble_stays(lines: Seq<NumberLine>, count: int)
    requires
        0 <= count <= lines.len(),
        first_trouble(lines.take(count)) is Some,
    ensures
        first_trouble(lines) == first_trouble(lines.take(count)),
    decreases lines.len() - count,
{
    if count < lines.len() {
        let longer = lines.take(count + 1);
        assert(longer.drop_last() =~= lines.take(count));
        lemma_first_trouble_stays(lines, count + 1);
    } else {
        assert(lines.take(count) =~= lines);
    }
}

proof fn lemma_first_difference_stays(
    ours: Seq<Band>,
    theirs: Seq<Band>,
    numbers: Seq<BandComparison>,
    count: nat,
    all: nat,
)
    requires
        count <= all,
        cascade_difference(ours, theirs, numbers, count) is Some,
    ensures
        cascade_difference(ours, theirs, numbers, all) == cascade_difference(
            ours,
            theirs,
            numbers,
            count,
        ),
    decreases all,
{
    if count < all {
        lemma_first_difference_stays(ours, theirs, numbers, count, (all - 1) as nat);
    }
}

/// A band with its numbers as words.
#[derive(Debug)]
pub struct WrittenBand {
    pub kind: BandType,
    pub fc: String,
    pub gain_db: String,
    pub q: String,
}

/// The row of a band, without its line feed.
pub open spec fn band_row(index: nat, band: WrittenBand) -> Seq<char> {
    "Filter "@ + decimal(index) + ": ON "@ + band.kind.word() + " Fc "@ + band.fc@ + " Hz Gain "@
        + band.gain_db@ + " dB Q "@ + band.q@
}

/// The rows of the first `count` bands, each with its line feed.
pub open spec fn band_rows(bands: Seq<WrittenBand>, count: nat) -> Seq<char>
    decreases count,
{
    if count == 0 {
        Seq::empty()
    } else {
        band_rows(bands, (count - 1) as nat) + band_row(count, bands[count - 1]) + "\n"@
    }
}

/// A cascade as `ParametricEQ` text.
pub open spec fn profile_text(preamp: Seq<char>, bands: Seq<WrittenBand>) -> Seq<char> {
    "Preamp: "@ + preamp + " dB\n"@ + band_rows(bands, bands.len())
}

/// A cascade as `ParametricEQ` text, from the words that its numbers print as.
pub fn to_parametric_eq(preamp: &String, bands: &Vec<WrittenBand>) -> (r: String)
    ensures
        r@ == profile_text(preamp@, bands@),
{
    let mut out = "Preamp: ".to_owned();
    out.append(preamp.as_str());
    out.append(" dB\n");
    let ghost head = out@;
    let mut at: usize = 0;
    assert(head + band_rows(bands@, 0) =~= head);
    while at < bands.len()
        invariant
            at <= bands.len(),
            out@ == head + band_rows(bands@, at as nat),
        decreases bands.len() - at,
    {
        let ghost before = out@;
        let band = &bands[at];
        out.append("Filter ");
        push_decimal(&mut out, at as u64 + 1);
        out.append(": ON ");
        out.append(band.kind.token());
        out.append(" Fc ");
        out.append(band.fc.as_str());
        out.append(" Hz Gain ");
        out.append(band.gain_db.as_str());
        out.append(" dB Q ");
        out.append(band.q.as_str());
        out.append("\n");
        assert(out@ =~= before + (band_row((at + 1) as nat, *band) + "\n"@));
        assert(out@ =~= head + band_rows(bands@, (at + 1) as nat));
        at = at + 1;
    }
    out
}

/// A word that a number prints as: it starts with a digit or a minus sign.
pub open spec fn is_number_word(s: Seq<char>) -> bool {
    is_word(s) && (s[0] == '-' || '0' <= s[0] <= '9')
}

/// The line that a written band reads back as.
pub open spec fn written_line(index: nat, band: WrittenBand) -> LineModel {
    Line::Filter {
        text: band_row(index, band),
        enabled: true,
        kind: band.kind,
        fc: Entry::Given(band.fc@),
        gain_db: Entry::Given(band.gain_db@),
        q: Entry::Given(band.q@),
    }
}

pub open spec fn is_written_band(band: WrittenBand) -> bool {
    is_number_word(band.fc@) && is_number_word(band.gain_db@) && is_number_word(band.q@)
}

proof fn lemma_decimal_word(n: nat)
    ensures
        is_word(decimal(n)),
        '0' <= decimal(n)[0] <= '9',
    decreases n,
{
    if n >= 10 {
        lemma_decimal_word(n / 10);
        let front = decimal(n / 10);
        assert forall|i: int| 0 <= i < decimal(n).len() implies !is_space(
            #[trigger] decimal(n)[i],
        ) by {
            if i < front.len() {
                assert(decimal(n)[i] == front[i]);
            }
        }
        assert(decimal(n)[0] == front[0]);
    }
}

proof fn lemma_unlike(a: Seq<char>, b: Seq<char>)
    requires
        a.len() != b.len() || (a.len() > 0 && folded(a[0]) != folded(b[0])),
    ensures
        !alike(a, b),
{
}

/// Where a key stands behind words that are unlike it.
proof fn lemma_place_at(words: Seq<Seq<char>>, a: Seq<char>, b: Seq<char>, at: int)
    requires
        0 <= at < words.len(),
        alike(words[at], a) || alike(words[at], b),
        forall|i: int| 0 <= i < at ==> !alike(#[trigger] words[i], a) && !alike(words[i], b),
    ensures
        place(words, a, b) == at,
    decreases at,
{
    if at > 0 {
        let rest = words.drop_first();
        assert(!alike(words[0], a) && !alike(words[0], b));
        assert forall|i: int| 0 <= i < at - 1 implies !alike(#[trigger] rest[i], a) && !alike(
            rest[i],
            b,
        ) by {
            assert(rest[i] == words[i + 1]);
        }
        assert(rest[at - 1] == words[at]);
        lemma_place_at(rest, a, b, at - 1);
    }
}

spec fn row_words(index: nat, band: WrittenBand) -> Seq<Seq<char>> {
    seq![
        "Filter"@,
        decimal(index).push(':'),
        "ON"@,
        band.kind.word(),
        "Fc"@,
        band.fc@,
        "Hz"@,
        "Gain"@,
        band.gain_db@,
        "dB"@,
        "Q"@,
        band.q@,
    ]
}

proof fn lemma_kind_word(kind: BandType)
    ensures
        is_word(kind.word()),
        BandType::named(kind.word()) == Some(kind),
        ({
            let c = kind.word()[0];
            c == 'P' || c == 'L' || c == 'H' || c == 'B' || c == 'N'
        }),
{
    reveal_strlit("PK");
    reveal_strlit("PEQ");
    reveal_strlit("MODAL");
    reveal_strlit("LSC");
    reveal_strlit("LS");
    reveal_strlit("LSQ");
    reveal_strlit("HSC");
    reveal_strlit("HS");
    reveal_strlit("HSQ");
    reveal_strlit("LP");
    reveal_strlit("LPQ");
    reveal_strlit("HP");
    reveal_strlit("HPQ");
    reveal_strlit("BP");
    reveal_strlit("NO");
    let w = kind.word();
    assert(alike(w, w));
    match kind {
        BandType::Peaking => {},
        BandType::LowShelf => {
            assert(w[0] == 'L');
            lemma_unlike(w, "PK"@);
            lemma_unlike(w, "PEQ"@);
            lemma_unlike(w, "MODAL"@);
        },
        BandType::HighShelf => {
            assert(w[0] == 'H');
            lemma_unlike(w, "PK"@);
            lemma_unlike(w, "PEQ"@);
            lemma_unlike(w, "MODAL"@);
            lemma_unlike(w, "LSC"@);
            lemma_unlike(w, "LS"@);
            lemma_unlike(w, "LSQ"@);
        },
        BandType::LowPass => {
            assert(w[1] == 'P');
            lemma_unlike(w, "PK"@);
            lemma_unlike(w, "PEQ"@);
            lemma_unlike(w, "MODAL"@);
            lemma_unlike(w, "LSC"@);
            assert(!alike(w, "LS"@)) by {
                assert(folded(w[1]) != folded("LS"@[1]));
            }
            lemma_unlike(w, "LSQ"@);
            lemma_unlike(w, "HSC"@);
            lemma_unlike(w, "HS"@);
            lemma_unlike(w, "HSQ"@);
        },
        BandType::HighPass => {
            lemma_unlike(w, "PK"@);
            lemma_unlike(w, "PEQ"@);
            lemma_unlike(w, "MODAL"@);
            lemma_unlike(w, "LSC"@);
            lemma_unlike(w, "LS"@);
            lemma_unlike(w, "LSQ"@);
            lemma_unlike(w, "HSC"@);
            assert(!alike(w, "HS"@)) by {
                assert(folded(w[1]) != folded("HS"@[1]));
            }
            lemma_unlike(w, "HSQ"@);
            lemma_unlike(w, "LP"@);
            lemma_unlike(w, "LPQ"@);
        },
        BandType::BandPass => {
            lemma_unlike(w, "PK"@);
            lemma_unlike(w, "LS"@);
            lemma_unlike(w, "HS"@);
            lemma_unlike(w, "LP"@);
            lemma_unlike(w, "HP"@);
        },
        BandType::Notch => {
            lemma_unlike(w, "PK"@);
            lemma_unlike(w, "LS"@);
            lemma_unlike(w, "HS"@);
            lemma_unlike(w, "LP"@);
            lemma_unlike(w, "HP"@);
            lemma_unlike(w, "BP"@);
        },
    }
}

#[verifier::spinoff_prover]
#[verifier::rlimit(50)]
proof fn lemma_row_words(index: nat, band: WrittenBand)
    requires
        is_written_band(band),
    ensures
        words(band_row(index, band)) == row_words(index, band),
{
    let b = seq![' '];
    let number = decimal(index).push(':');
    lemma_decimal_word(index);
    lemma_kind_word(band.kind);
    assert(is_word(number)) by {
        assert forall|i: int| 0 <= i < number.len() implies !is_space(#[trigger] number[i]) by {
            if i < decimal(index).len() {
                assert(number[i] == decimal(index)[i]);
            }
        }
    }
    let r11 = band.q@;
    let r10 = "Q"@ + b + r11;
    let r9 = "dB"@ + b + r10;
    let r8 = band.gain_db@ + b + r9;
    let r7 = "Gain"@ + b + r8;
    let r6 = "Hz"@ + b + r7;
    let r5 = band.fc@ + b + r6;
    let r4 = "Fc"@ + b + r5;
    let r3 = band.kind.word() + b + r4;
    let r2 = "ON"@ + b + r3;
    let r1 = number + b + r2;
    let r0 = "Filter"@ + b + r1;
    assert(is_word("Filter"@) && is_word("ON"@) && is_word("Fc"@) && is_word("Hz"@) && is_word(
        "Gain"@,
    ) && is_word("dB"@) && is_word("Q"@)) by {
        reveal_strlit("Filter");
        reveal_strlit("ON");
        reveal_strlit("Fc");
        reveal_strlit("Hz");
        reveal_strlit("Gain");
        reveal_strlit("dB");
        reveal_strlit("Q");
    }
    lemma_words_single(r11);
    lemma_words_joined("Q"@, r11);
    lemma_words_joined("dB"@, r10);
    lemma_words_joined(band.gain_db@, r9);
    lemma_words_joined("Gain"@, r8);
    lemma_words_joined("Hz"@, r7);
    lemma_words_joined(band.fc@, r6);
    lemma_words_joined("Fc"@, r5);
    lemma_words_joined(band.kind.word(), r4);
    lemma_words_joined("ON"@, r3);
    lemma_words_joined(number, r2);
    lemma_words_joined("Filter"@, r1);
    assert(words(r0) =~= row_words(index, band));
    lemma_row_is(index, band);
}

/// The row of a band as its words, each but the last with a blank behind it.
#[verifier::spinoff_prover]
#[verifier::rlimit(50)]
proof fn lemma_row_is(index: nat, band: WrittenBand)
    ensures
        band_row(index, band) == "Filter"@ + seq![' '] + (decimal(index).push(':') + seq![' '] + (
        "ON"@ + seq![' '] + (band.kind.word() + seq![' '] + ("Fc"@ + seq![' '] + (band.fc@ + seq![
            ' ',
        ] + ("Hz"@ + seq![' '] + ("Gain"@ + seq![' '] + (band.gain_db@ + seq![' '] + ("dB"@ + seq![
            ' ',
        ] + ("Q"@ + seq![' '] + band.q@)))))))))),
{
    reveal_strlit("Filter ");
    reveal_strlit("Filter");
    reveal_strlit(": ON ");
    reveal_strlit("ON");
    reveal_strlit(" Fc ");
    reveal_strlit("Fc");
    reveal_strlit(" Hz Gain ");
    reveal_strlit("Hz");
    reveal_strlit("Gain");
    reveal_strlit(" dB Q ");
    reveal_strlit("dB");
    reveal_strlit("Q");
    let b = seq![' '];
    assert("Filter "@ =~= "Filter"@ + b);
    assert(": ON "@ =~= seq![':'] + b + "ON"@ + b);
    assert(" Fc "@ =~= b + "Fc"@ + b);
    assert(" Hz Gain "@ =~= b + "Hz"@ + b + "Gain"@ + b);
    assert(" dB Q "@ =~= b + "dB"@ + b + "Q"@ + b);
    let tail = "Q"@ + b + band.q@;
    let g = band.gain_db@ + b + ("dB"@ + b + tail);
    let f = band.fc@ + b + ("Hz"@ + b + ("Gain"@ + b + g));
    let k = band.kind.word() + b + ("Fc"@ + b + f);
    assert(band.gain_db@ + " dB Q "@ + band.q@ =~= g);
    assert(band.fc@ + " Hz Gain "@ + g =~= f);
    assert(band.kind.word() + " Fc "@ + f =~= k);
    let n = decimal(index).push(':') + b + ("ON"@ + b + k);
    assert(decimal(index) + ": ON "@ + k =~= n);
    assert(band_row(index, band) =~= "Filter "@ + (decimal(index) + ": ON "@ + (band.kind.word()
        + " Fc "@ + (band.fc@ + " Hz Gain "@ + (band.gain_db@ + " dB Q "@ + band.q@)))));
    assert("Filter "@ + n =~= "Filter"@ + b + n);
}

#[verifier::spinoff_prover]
#[verifier::rlimit(50)]
proof fn lemma_line_of_row(index: nat, band: WrittenBand)
    requires
        is_written_band(band),
    ensures
        line_of(band_row(index, band)) == Some(written_line(index, band)),
{
    let row = band_row(index, band);
    let tokens = row_words(index, band);
    lemma_row_words(index, band);
    lemma_row_is(index, band);
    lemma_decimal_word(index);
    lemma_kind_word(band.kind);
    reveal_strlit("Filter");
    reveal_strlit("ON");
    reveal_strlit("OFF");
    reveal_strlit("Fc");
    reveal_strlit("Hz");
    reveal_strlit("Gain");
    reveal_strlit("dB");
    reveal_strlit("Q");
    reveal_strlit("Preamp:");
    reveal_strlit("Preamp");
    assert(row[0] == 'F');
    assert(row.last() == band.q@.last());
    assert(trimmed(row) == row);
    let number = decimal(index).push(':');
    assert(number[0] == decimal(index)[0]);
    let kind = band.kind.word();
    assert(alike("Filter"@, "Filter"@));
    assert(alike("ON"@, "ON"@));
    assert(alike("Fc"@, "Fc"@));
    assert(alike("Gain"@, "Gain"@));
    assert(alike("Q"@, "Q"@));
    lemma_unlike("Filter"@, "Preamp:"@);
    assert("Filter"@[0] == 'F' && "Preamp"@[0] == 'P');
    lemma_unlike("Filter"@, "Preamp"@);
    // The switch.
    lemma_unlike("Filter"@, "ON"@);
    lemma_unlike("Filter"@, "OFF"@);
    lemma_unlike(number, "ON"@);
    lemma_unlike(number, "OFF"@);
    lemma_place_at(tokens, "ON"@, "OFF"@, 2);
    // The centre frequency.
    lemma_unlike("Filter"@, "Fc"@);
    lemma_unlike(number, "Fc"@);
    lemma_unlike("ON"@, "Fc"@);
    lemma_unlike(kind, "Fc"@);
    lemma_place_at(tokens, "Fc"@, "Fc"@, 4);
    // The gain.
    lemma_unlike("Filter"@, "Gain"@);
    lemma_unlike(number, "Gain"@);
    lemma_unlike("ON"@, "Gain"@);
    lemma_unlike(kind, "Gain"@);
    lemma_unlike("Fc"@, "Gain"@);
    lemma_unlike(band.fc@, "Gain"@);
    lemma_unlike("Hz"@, "Gain"@);
    lemma_place_at(tokens, "Gain"@, "Gain"@, 7);
    // The quality.
    lemma_unlike("Filter"@, "Q"@);
    lemma_unlike(number, "Q"@);
    lemma_unlike("ON"@, "Q"@);
    lemma_unlike(kind, "Q"@);
    lemma_unlike("Fc"@, "Q"@);
    lemma_unlike(band.fc@, "Q"@);
    lemma_unlike("Hz"@, "Q"@);
    lemma_unlike("Gain"@, "Q"@);
    lemma_unlike(band.gain_db@, "Q"@);
    lemma_unlike("dB"@, "Q"@);
    lemma_place_at(tokens, "Q"@, "Q"@, 10);
    assert(tokens[0] == "Filter"@);
    assert(tokens[2] == "ON"@);
    assert(tokens[3] == kind);
    assert(tokens[5] == band.fc@);
    assert(tokens[8] == band.gain_db@);
    assert(tokens[11] == band.q@);
}

proof fn lemma_preamp_line(preamp: Seq<char>)
    requires
        is_number_word(preamp),
    ensures
        line_of("Preamp: "@ + preamp + " dB"@) == Some(
            LineModel::Preamp {
                text: "Preamp: "@ + preamp + " dB"@,
                value: Entry::Given(preamp),
            },
        ),
{
    let row = "Preamp: "@ + preamp + " dB"@;
    reveal_strlit("Preamp: ");
    reveal_strlit("Preamp:");
    reveal_strlit(" dB");
    reveal_strlit("dB");
    let b = seq![' '];
    assert(row =~= "Preamp:"@ + b + (preamp + b + "dB"@));
    assert(is_word("dB"@));
    assert(is_word("Preamp:"@));
    lemma_words_single("dB"@);
    lemma_words_joined(preamp, "dB"@);
    lemma_words_joined("Preamp:"@, preamp + b + "dB"@);
    assert(words(row) =~= seq!["Preamp:"@, preamp, "dB"@]);
    assert(row[0] == 'P');
    assert(row.last() == 'B');
    assert(trimmed(row) == row);
    assert(alike("Preamp:"@, "Preamp:"@));
}

proof fn lemma_row_has_no_feed(index: nat, band: WrittenBand)
    requires
        is_written_band(band),
    ensures
        forall|i: int|
            0 <= i < band_row(index, band).len() ==> #[trigger] band_row(index, band)[i] != '\n',
{
    lemma_decimal_word(index);
    lemma_kind_word(band.kind);
    reveal_strlit("Filter ");
    reveal_strlit(": ON ");
    reveal_strlit(" Fc ");
    reveal_strlit(" Hz Gain ");
    reveal_strlit(" dB Q ");
    assert(is_space('\n'));
    let p1 = "Filter "@ + decimal(index);
    let p2 = p1 + ": ON "@;
    let p3 = p2 + band.kind.word();
    let p4 = p3 + " Fc "@;
    let p5 = p4 + band.fc@;
    let p6 = p5 + " Hz Gain "@;
    let p7 = p6 + band.gain_db@;
    let p8 = p7 + " dB Q "@;
    assert(forall|i: int| 0 <= i < p1.len() ==> #[trigger] p1[i] != '\n');
    assert(forall|i: int| 0 <= i < p2.len() ==> #[trigger] p2[i] != '\n');
    assert(forall|i: int| 0 <= i < p3.len() ==> #[trigger] p3[i] != '\n');
    assert(forall|i: int| 0 <= i < p4.len() ==> #[trigger] p4[i] != '\n');
    assert(forall|i: int| 0 <= i < p5.len() ==> #[trigger] p5[i] != '\n');
    assert(forall|i: int| 0 <= i < p6.len() ==> #[trigger] p6[i] != '\n');
    assert(forall|i: int| 0 <= i < p7.len() ==> #[trigger] p7[i] != '\n');
    assert(forall|i: int| 0 <= i < p8.len() ==> #[trigger] p8[i] != '\n');
}

proof fn lemma_rows_of_bands(bands: Seq<WrittenBand>, count: nat, rest: Seq<char>)
    requires
        count <= bands.len(),
        forall|i: int| 0 <= i < bands.len() ==> is_written_band(#[trigger] bands[i]),
    ensures
        lines_of(rows(band_rows(bands, count) + rest)) == Seq::new(
            count,
            |i: int| written_line((i + 1) as nat, bands[i]),
        ) + lines_of(rows(rest)),
    decreases count,
{
    if count == 0 {
        assert(band_rows(bands, 0) + rest =~= rest);
        assert(Seq::new(0, |i: int| written_line((i + 1) as nat, bands[i])) + lines_of(rows(rest))
            =~= lines_of(rows(rest)));
    } else {
        let band = bands[count - 1];
        let row = band_row(count, band);
        reveal_strlit("\n");
        assert("\n"@ =~= seq!['\n']);
        let longer = row + seq!['\n'] + rest;
        assert(band_rows(bands, count) + rest =~= band_rows(bands, (count - 1) as nat) + longer);
        lemma_rows_of_bands(bands, (count - 1) as nat, longer);
        lemma_row_has_no_feed(count, band);
        lemma_rows_joined(row, rest);
        lemma_line_of_row(count, band);
        let all = seq![row] + rows(rest);
        assert(all[0] == row);
        assert(all.drop_first() =~= rows(rest));
        assert(lines_of(all) == seq![written_line(count, band)] + lines_of(rows(rest)));
        let fewer = Seq::new(
            (count - 1) as nat,
            |i: int| written_line((i + 1) as nat, bands[i]),
        );
        assert(Seq::new(count, |i: int| written_line((i + 1) as nat, bands[i])) =~= fewer.push(
            written_line(count, band),
        ));
        assert(fewer + (seq![written_line(count, band)] + lines_of(rows(rest))) =~= fewer.push(
            written_line(count, band),
        ) + lines_of(rows(rest)));
    }
}

/// A profile that was written reads back word for word: the preamp, and every
/// band with its type and its three numbers, in the same order, all switched on.
pub proof fn a_written_profile_reads_back_word_for_word(
    preamp: Seq<char>,
    bands: Seq<WrittenBand>,
)
    requires
        is_number_word(preamp),
        forall|i: int| 0 <= i < bands.len() ==> is_written_band(#[trigger] bands[i]),
    ensures
        lines_of(rows(profile_text(preamp, bands))) == seq![
            LineModel::Preamp {
                text: "Preamp: "@ + preamp + " dB"@,
                value: Entry::Given(preamp),
            },
        ] + Seq::new(bands.len(), |i: int| written_line((i + 1) as nat, bands[i])),
{
    let row = "Preamp: "@ + preamp + " dB"@;
    let rest = band_rows(bands, bands.len());
    let written = Seq::new(bands.len(), |i: int| written_line((i + 1) as nat, bands[i]));
    let line = LineModel::Preamp { text: row, value: Entry::Given(preamp) };
    reveal_strlit("Preamp: ");
    reveal_strlit(" dB");
    reveal_strlit(" dB\n");
    assert(profile_text(preamp, bands) =~= row + seq!['\n'] + rest);
    assert(is_space('\n'));
    assert forall|i: int| 0 <= i < row.len() implies #[trigger] row[i] != '\n' by {
        let j = i - "Preamp: "@.len();
        if 0 <= j < preamp.len() {
            assert(row[i] == preamp[j]);
        }
    }
    lemma_rows_joined(row, rest);
    lemma_preamp_line(preamp);
    let all = seq![row] + rows(rest);
    assert(all[0] == row);
    assert(all.drop_first() =~= rows(rest));
    let empty = Seq::<char>::empty();
    assert(rest + empty =~= rest);
    lemma_rows_of_bands(bands, bands.len(), empty);
    assert(rows(empty) == seq![empty]);
    assert(line_of(empty) is None);
    assert(seq![empty].drop_first() =~= Seq::<Seq<char>>::empty());
    assert(lines_of(Seq::<Seq<char>>::empty()) == Seq::<LineModel>::empty());
    assert(lines_of(rows(empty)) =~= Seq::<LineModel>::empty());
    assert(written + Seq::<LineModel>::empty() =~= written);
    assert(lines_of(all) == seq![line] + lines_of(rows(rest)));
}

/// A band that the cascade can hold.
pub open spec fn is_playable(band: Band) -> bool {
    is_positive_double(band.fc) && is_positive_double(band.q) && is_finite_double(band.gain_db)
}

/// The line gives exactly this band.
pub open spec fn gives(line: NumberLine, band: Band) -> bool {
    match line {
        Line::Filter { enabled, kind, fc, gain_db, q, .. } => enabled && kind == band.kind
            && fc == Entry::Given(Some(band.fc)) && gain_db == Entry::Given(Some(band.gain_db))
            && q == Entry::Given(Some(band.q)),
        _ => false,
    }
}

proof fn lemma_given_bands(lines: Seq<NumberLine>, preamp_db: u64, bands: Seq<Band>, count: int)
    requires
        0 <= count <= bands.len(),
        lines.len() == bands.len() + 1,
        lines[0] is Preamp && number(lines[0]->Preamp_value, None) == Some(preamp_db),
        is_finite_double(preamp_db),
        forall|i: int|
            0 <= i < bands.len() ==> gives(lines[i + 1], #[trigger] bands[i]) && is_playable(
                bands[i],
            ),
    ensures
        first_trouble(lines.take(count + 1)) is None,
        preamp_of(lines.take(count + 1)) == preamp_db,
        cascade_of(lines.take(count + 1)) == bands.take(count),
    decreases count,
{
    let so_far = lines.take(count + 1);
    assert(so_far.last() == lines[count]);
    assert(so_far.drop_last() =~= lines.take(count));
    if count == 0 {
        assert(lines.take(0).len() == 0);
        assert(cascade_of(lines.take(0)) == Seq::<Band>::empty());
        assert(first_trouble(lines.take(0)) is None);
        assert(bands.take(0) =~= Seq::<Band>::empty());
    } else {
        lemma_given_bands(lines, preamp_db, bands, count - 1);
        let band = bands[count - 1];
        assert(gives(lines[count - 1 + 1], band) && is_playable(band));
        assert(bands.take(count) =~= bands.take(count - 1).push(band));
    }
}

/// Once the written words read back as the same numbers, the profile is the
/// very cascade that was written.
pub proof fn numbers_that_read_back_give_the_same_cascade(
    lines: Seq<NumberLine>,
    preamp_db: u64,
    bands: Seq<Band>,
)
    requires
        bands.len() <= MAX_BANDS,
        lines.len() == bands.len() + 1,
        lines[0] is Preamp && number(lines[0]->Preamp_value, None) == Some(preamp_db),
        is_finite_double(preamp_db),
        forall|i: int|
            0 <= i < bands.len() ==> gives(lines[i + 1], #[trigger] bands[i]) && is_playable(
                bands[i],
            ),
    ensures
        refusal(lines) is None,
        preamp_of(lines) == preamp_db,
        cascade_of(lines) == bands,
{
    lemma_given_bands(lines, preamp_db, bands, bands.len() as int);
    assert(lines.take(lines.len() as int) =~= lines);
    assert(bands.take(bands.len() as int) =~= bands);
}

/// A knob at rest costs nothing, and no setting of the knobs costs more than
/// one shelf for the bass and one stack for the tilt.
pub proof fn an_adjustment_adds_at_most_four_bands(adjustment: Adjustment)
    ensures
        adjustment.added().len() <= 1 + TILT_SHELVES,
        (magnitude(adjustment.bass_db) == 0 && magnitude(adjustment.tilt_db_per_octave) == 0)
            <==> adjustment.added().len() == 0,
{
}

/// Bringing a knob into its travel twice changes nothing more.
pub proof fn clamping_twice_is_clamping_once(adjustment: Adjustment)
    ensures
        adjustment.within_travel().within_travel() == adjustment.within_travel(),
{
}

/// An entry whose word was read as a number.
pub open spec fn reads_entry(
    read: spec_fn(Seq<char>) -> Option<u64>,
    word: Entry<Seq<char>>,
    number: Entry<Option<u64>>,
) -> bool {
    match word {
        Entry::Absent => number is Absent,
        Entry::Nothing => number is Nothing,
        Entry::Given(word) => number == Entry::Given(read(word)),
    }
}

/// A line whose words were read as numbers, one by one.
pub open spec fn reads_line(
    read: spec_fn(Seq<char>) -> Option<u64>,
    words: LineModel,
    numbers: NumberLine,
) -> bool {
    match (words, numbers) {
        (
            Line::Preamp { text: row, value: word },
            Line::Preamp { text, value },
        ) => text@ == row && reads_entry(read, word, value),
        (
            Line::Filter { text: row, enabled: on, kind: shape, fc: f, gain_db: g, q: w },
            Line::Filter { text, enabled, kind, fc, gain_db, q },
        ) => {
            &&& text@ == row
            &&& enabled == on
            &&& kind == shape
            &&& reads_entry(read, f, fc)
            &&& reads_entry(read, g, gain_db)
            &&& reads_entry(read, w, q)
        },
        _ => false,
    }
}

/// The texts of a band's numbers, as they are written, read back as those numbers.
pub open spec fn is_written_as(
    read: spec_fn(Seq<char>) -> Option<u64>,
    band: Band,
    written: WrittenBand,
) -> bool {
    &&& is_written_band(written)
    &&& written.kind == band.kind
    &&& read(written.fc@) == Some(band.fc)
    &&& read(written.gain_db@) == Some(band.gain_db)
    &&& read(written.q@) == Some(band.q)
}

/// A saved profile reads back as the very same cascade, bit for bit. Its text is split
/// into lines and words, each word of a number is read, and the lines are parsed. All
/// that is asked of the printing and reading of one number is that its text reads back
/// as it.
pub proof fn a_saved_profile_reads_back_as_the_very_same_cascade(
    read: spec_fn(Seq<char>) -> Option<u64>,
    preamp: Seq<char>,
    written: Seq<WrittenBand>,
    profile: Profile,
    lines: Seq<NumberLine>,
)
    requires
        profile.bands@.len() <= MAX_BANDS,
        is_finite_double(profile.preamp_db),
        forall|i: int| 0 <= i < profile.bands@.len() ==> is_playable(#[trigger] profile.bands@[i]),
        is_number_word(preamp),
        read(preamp) == Some(profile.preamp_db),
        written.len() == profile.bands@.len(),
        forall|i: int|
            0 <= i < written.len() ==> is_written_as(
                read,
                profile.bands@[i],
                #[trigger] written[i],
            ),
        lines.len() == lines_of(rows(profile_text(preamp, written))).len(),
        forall|i: int|
            0 <= i < lines.len() ==> reads_line(
                read,
                lines_of(rows(profile_text(preamp, written)))[i],
                #[trigger] lines[i],
            ),
    ensures
        refusal(lines) is None,
        preamp_of(lines) == profile.preamp_db,
        cascade_of(lines) == profile.bands@,
{
    assert forall|i: int| 0 <= i < written.len() implies is_written_band(
        #[trigger] written[i],
    ) by {}
    a_written_profile_reads_back_word_for_word(preamp, written);
    let text = lines_of(rows(profile_text(preamp, written)));
    let bands = profile.bands@;
    assert(text[0] is Preamp);
    assert(reads_line(read, text[0], lines[0]));
    assert forall|i: int| 0 <= i < bands.len() implies gives(lines[i + 1], #[trigger] bands[i])
        && is_playable(bands[i]) by {
        assert(text[i + 1] == written_line((i + 1) as nat, written[i]));
        assert(reads_line(read, text[i + 1], lines[i + 1]));
    }
    numbers_that_read_back_give_the_same_cascade(lines, profile.preamp_db, bands);
}

/// The whole table of words: which ones name a type, in either case of each letter, and
/// that no other word does.
pub proof fn the_words_of_each_band_type(word: Seq<char>)
    ensures
        BandType::named(word) == Some(BandType::Peaking) <==> (alike(word, "PK"@)
            || alike(word, "PEQ"@)
            || alike(word, "MODAL"@)),
        BandType::named(word) == Some(BandType::LowShelf) <==> (alike(word, "LSC"@)
            || alike(word, "LS"@)
            || alike(word, "LSQ"@)),
        BandType::named(word) == Some(BandType::HighShelf) <==> (alike(word, "HSC"@)
            || alike(word, "HS"@)
            || alike(word, "HSQ"@)),
        BandType::named(word) == Some(BandType::LowPass) <==> (alike(word, "LP"@)
            || alike(word, "LPQ"@)),
        BandType::named(word) == Some(BandType::HighPass) <==> (alike(word, "HP"@)
            || alike(word, "HPQ"@)),
        BandType::named(word) == Some(BandType::BandPass) <==> (alike(word, "BP"@)),
        BandType::named(word) == Some(BandType::Notch) <==> (alike(word, "NO"@)),
{
    reveal_strlit("PK");
    reveal_strlit("PEQ");
    reveal_strlit("MODAL");
    reveal_strlit("LSC");
    reveal_strlit("LS");
    reveal_strlit("LSQ");
    reveal_strlit("HSC");
    reveal_strlit("HS");
    reveal_strlit("HSQ");
    reveal_strlit("LP");
    reveal_strlit("LPQ");
    reveal_strlit("HP");
    reveal_strlit("HPQ");
    reveal_strlit("BP");
    reveal_strlit("NO");
    if word.len() == 2 {
        assert(word[0] == word[0] && word[1] == word[1]);
        let first = folded(word[0]);
        let second = folded(word[1]);
    } else if word.len() == 3 {
        let first = folded(word[0]);
        let second = folded(word[1]);
        let third = folded(word[2]);
    }
}

/// Each word of the table by itself.
pub proof fn each_word_names_its_band_type()
    ensures
        BandType::named("PK"@) == Some(BandType::Peaking),
        BandType::named("PEQ"@) == Some(BandType::Peaking),
        BandType::named("MODAL"@) == Some(BandType::Peaking),
        BandType::named("LSC"@) == Some(BandType::LowShelf),
        BandType::named("LS"@) == Some(BandType::LowShelf),
        BandType::named("LSQ"@) == Some(BandType::LowShelf),
        BandType::named("HSC"@) == Some(BandType::HighShelf),
        BandType::named("HS"@) == Some(BandType::HighShelf),
        BandType::named("HSQ"@) == Some(BandType::HighShelf),
        BandType::named("LP"@) == Some(BandType::LowPass),
        BandType::named("LPQ"@) == Some(BandType::LowPass),
        BandType::named("HP"@) == Some(BandType::HighPass),
        BandType::named("HPQ"@) == Some(BandType::HighPass),
        BandType::named("BP"@) == Some(BandType::BandPass),
        BandType::named("NO"@) == Some(BandType::Notch),
{
    the_words_of_each_band_type("PK"@);
    assert(alike("PK"@, "PK"@));
    the_words_of_each_band_type("PEQ"@);
    assert(alike("PEQ"@, "PEQ"@));
    the_words_of_each_band_type("MODAL"@);
    assert(alike("MODAL"@, "MODAL"@));
    the_words_of_each_band_type("LSC"@);
    assert(alike("LSC"@, "LSC"@));
    the_words_of_each_band_type("LS"@);
    assert(alike("LS"@, "LS"@));
    the_words_of_each_band_type("LSQ"@);
    assert(alike("LSQ"@, "LSQ"@));
    the_words_of_each_band_type("HSC"@);
    assert(alike("HSC"@, "HSC"@));
    the_words_of_each_band_type("HS"@);
    assert(alike("HS"@, "HS"@));
    the_words_of_each_band_type("HSQ"@);
    assert(alike("HSQ"@, "HSQ"@));
    the_words_of_each_band_type("LP"@);
    assert(alike("LP"@, "LP"@));
    the_words_of_each_band_type("LPQ"@);
    assert(alike("LPQ"@, "LPQ"@));
    the_words_of_each_band_type("HP"@);
    assert(alike("HP"@, "HP"@));
    the_words_of_each_band_type("HPQ"@);
    assert(alike("HPQ"@, "HPQ"@));
    the_words_of_each_band_type("BP"@);
    assert(alike("BP"@, "BP"@));
    the_words_of_each_band_type("NO"@);
    assert(alike("NO"@, "NO"@));
}

/// The type that is written is a type that is read, and each has a word of its own.
pub proof fn every_band_type_is_written_with_a_word_that_names_it(a: BandType, b: BandType)
    ensures
        BandType::named(a.word()) == Some(a),
        a.word() == b.word() ==> a == b,
{
    each_word_names_its_band_type();
}

/// A line whose numbers can be used: a finite preamp, or a positive frequency with a finite
/// gain and a positive quality where they are given.
pub open spec fn can_be_used(line: NumberLine) -> bool {
    match line {
        Line::Preamp { value, .. } => value is Given && value->Given_0 is Some && is_finite_double(
            value->Given_0->0,
        ),
        Line::Filter { fc, gain_db, q, .. } => {
            &&& fc is Given && fc->Given_0 is Some && is_positive_double(fc->Given_0->0)
            &&& gain_db is Absent || (gain_db is Given && gain_db->Given_0 is Some
                && is_finite_double(gain_db->Given_0->0))
            &&& q is Absent || (q is Given && q->Given_0 is Some && is_positive_double(
                q->Given_0->0,
            ))
        },
    }
}

/// A profile is read where it has a line, every line can be used, and at most thirty-two
/// filters are on. Otherwise the first line that cannot be used is what is wrong with it.
pub proof fn a_profile_is_read_where_every_line_can_be_used(lines: Seq<NumberLine>)
    ensures
        refusal(lines) is None <==> lines.len() > 0 && (forall|i: int|
            0 <= i < lines.len() ==> can_be_used(#[trigger] lines[i])) && cascade_of(lines).len()
            <= 32,
        first_trouble(lines) is None <==> (forall|i: int|
            0 <= i < lines.len() ==> can_be_used(#[trigger] lines[i])),
        first_trouble(lines) is Some ==> refusal(lines) == first_trouble(lines) && exists|i: int|
            0 <= i < lines.len() && first_trouble(lines) == trouble(#[trigger] lines[i])
                && !can_be_used(lines[i]) && forall|j: int|
                0 <= j < i ==> can_be_used(#[trigger] lines[j]),
    decreases lines.len(),
{
    if lines.len() > 0 {
        let front = lines.drop_last();
        a_profile_is_read_where_every_line_can_be_used(front);
        assert(forall|i: int| 0 <= i < front.len() ==> front[i] == #[trigger] lines[i]);
        assert(trouble(lines.last()) is None <==> can_be_used(lines.last()));
        if first_trouble(front) is Some {
            let i = choose|i: int|
                0 <= i < front.len() && first_trouble(front) == trouble(#[trigger] front[i])
                    && !can_be_used(front[i]) && forall|j: int|
                    0 <= j < i ==> can_be_used(#[trigger] front[j]);
            assert(lines[i] == front[i]);
            assert forall|j: int| 0 <= j < i implies can_be_used(#[trigger] lines[j]) by {
                assert(front[j] == lines[j]);
            }
        } else if first_trouble(lines) is Some {
            let last = lines.len() - 1;
            assert(lines[last] == lines.last());
            assert forall|j: int| 0 <= j < last implies can_be_used(#[trigger] lines[j]) by {
                assert(front[j] == lines[j]);
            }
        } else {
            assert forall|i: int| 0 <= i < lines.len() implies can_be_used(#[trigger] lines[i]) by {
                if i < front.len() {
                    assert(front[i] == lines[i]);
                }
            }
        }
    }
}

/// What is wrong with a line is told with the line's own text, and names the number that
/// cannot be used.
pub proof fn what_is_wrong_names_the_number(line: NumberLine)
    requires
        !can_be_used(line),
    ensures
        match line {
            Line::Preamp { text, value } => trouble(line) == Some(
                (if value is Given && value->Given_0 is Some {
                    "Preamp must be a finite number: "@
                } else {
                    "Preamp is not a number: "@
                }) + text@,
            ),
            Line::Filter { text, fc, gain_db, q, .. } => {
                let no_fc = !(fc is Given) || fc->Given_0 is None;
                let no_gain = gain_db is Nothing || (gain_db is Given && gain_db->Given_0 is None);
                let no_q = q is Nothing || (q is Given && q->Given_0 is None);
                &&& no_fc ==> trouble(line) == Some("Filter line has no readable Fc: "@ + text@)
                &&& !no_fc && no_gain ==> trouble(line) == Some("Gain is not a number: "@ + text@)
                &&& !no_fc && !no_gain && no_q ==> trouble(line) == Some(
                    "Q is not a number: "@ + text@,
                )
                &&& !no_fc && !no_gain && !no_q && !is_positive_double(fc->Given_0->0) ==> trouble(
                    line,
                ) == Some("Fc must be a finite positive number: "@ + text@)
                &&& !no_fc && !no_gain && !no_q && is_positive_double(fc->Given_0->0) && q is Given
                    && !is_positive_double(q->Given_0->0) ==> trouble(line) == Some(
                    "Q must be a finite positive number: "@ + text@,
                )
            },
        },
{
}

/// A filter that is on adds one band with its own numbers to the end of the cascade, without
/// gain and with a quality of 0.707 where they are not given. No other line adds any.
pub proof fn a_filter_that_is_on_adds_its_band(lines: Seq<NumberLine>, line: NumberLine)
    requires
        can_be_used(line),
    ensures
        match line {
            Line::Filter { enabled, kind, fc, gain_db, q, .. } => {
                let longer = cascade_of(lines.push(line));
                &&& !enabled ==> longer == cascade_of(lines)
                &&& enabled ==> longer.len() == cascade_of(lines).len() + 1
                &&& enabled ==> longer.drop_last() == cascade_of(lines)
                &&& enabled ==> longer.last().kind == kind
                &&& enabled ==> Some(longer.last().fc) == fc->Given_0
                &&& enabled && gain_db is Given ==> Some(longer.last().gain_db) == gain_db->Given_0
                &&& enabled && gain_db is Absent ==> longer.last().gain_db == 0
                &&& enabled && q is Given ==> Some(longer.last().q) == q->Given_0
                &&& enabled && q is Absent ==> longer.last().q == 0x3fe6_9fbe_76c8_b439
            },
            Line::Preamp { .. } => cascade_of(lines.push(line)) == cascade_of(lines),
        },
        cascade_of(Seq::empty()) == Seq::<Band>::empty(),
{
    assert(lines.push(line).drop_last() =~= lines);
    if line is Filter && line->enabled {
        assert(cascade_of(lines.push(line)).drop_last() =~= cascade_of(lines));
    }
}

/// The last preamp counts, and there is none where no line gives one.
pub proof fn the_last_preamp_counts(lines: Seq<NumberLine>, line: NumberLine)
    requires
        can_be_used(line),
    ensures
        match line {
            Line::Preamp { value, .. } => Some(preamp_of(lines.push(line))) == value->Given_0,
            Line::Filter { .. } => preamp_of(lines.push(line)) == preamp_of(lines),
        },
        preamp_of(Seq::empty()) == 0,
{
    assert(lines.push(line).drop_last() =~= lines);
}

/// The knobs stay within six decibels and two decibels per octave, and within them they stay
/// where they are.
pub proof fn the_knobs_stay_within_their_travel(adjustment: Adjustment)
    ensures
        ({
            let r = adjustment.within_travel();
            &&& !is_nan(adjustment.bass_db) ==> !below(r.bass_db, 0xc0c0_0000) && !below(
                0x40c0_0000,
                r.bass_db,
            )
            &&& !is_nan(adjustment.tilt_db_per_octave) ==> !below(
                r.tilt_db_per_octave,
                0xc000_0000,
            ) && !below(0x4000_0000, r.tilt_db_per_octave)
            &&& adjustment.bass_db <= 0x40c0_0000 ==> r.bass_db == adjustment.bass_db
            &&& 0x8000_0000 <= adjustment.bass_db <= 0xc0c0_0000 ==> r.bass_db
                == adjustment.bass_db
            &&& adjustment.tilt_db_per_octave <= 0x4000_0000 ==> r.tilt_db_per_octave
                == adjustment.tilt_db_per_octave
            &&& 0x8000_0000 <= adjustment.tilt_db_per_octave <= 0xc000_0000
                ==> r.tilt_db_per_octave == adjustment.tilt_db_per_octave
            &&& 0x40c0_0000 < adjustment.bass_db <= 0x7f80_0000 ==> r.bass_db == 0x40c0_0000
            &&& 0xc0c0_0000 < adjustment.bass_db <= 0xff80_0000 ==> r.bass_db == 0xc0c0_0000
            &&& 0x4000_0000 < adjustment.tilt_db_per_octave <= 0x7f80_0000 ==> r.tilt_db_per_octave
                == 0x4000_0000
            &&& 0xc000_0000 < adjustment.tilt_db_per_octave <= 0xff80_0000 ==> r.tilt_db_per_octave
                == 0xc000_0000
        }),
{
}

/// A knob that is not at rest adds its own bands: the bass its shelf, and the tilt its three,
/// from the lowest to the highest.
pub proof fn each_knob_adds_its_own_bands(adjustment: Adjustment)
    ensures
        adjustment.added().contains(AddedBand::Bass) <==> adjustment.bass_db != 0
            && adjustment.bass_db != 0x8000_0000,
        adjustment.added().len() > 0 && adjustment.added()[0] != AddedBand::Bass
            ==> !adjustment.added().contains(AddedBand::Bass),
        adjustment.tilt_db_per_octave != 0 && adjustment.tilt_db_per_octave != 0x8000_0000 ==> (
        adjustment.added().len() >= 3 && adjustment.added().skip(adjustment.added().len() - 3)
            == seq![AddedBand::TiltShelf(0), AddedBand::TiltShelf(1), AddedBand::TiltShelf(2)]),
        adjustment.tilt_db_per_octave == 0 || adjustment.tilt_db_per_octave == 0x8000_0000
            ==> adjustment.added().len() <= 1,
{
    let added = adjustment.added();
    if magnitude(adjustment.bass_db) != 0 {
        assert(added[0] == AddedBand::Bass);
    }
    if magnitude(adjustment.tilt_db_per_octave) != 0 {
        assert(added.skip(added.len() - 3) =~= seq![
            AddedBand::TiltShelf(0),
            AddedBand::TiltShelf(1),
            AddedBand::TiltShelf(2),
        ]);
    }
}

/// Two readings agree exactly where the preamps, the number of bands, and of each band the
/// type and the three numbers agree.
pub proof fn readings_agree_where_every_number_does(
    ours: Profile,
    theirs: Profile,
    preamp: Comparison,
    numbers: Vec<BandComparison>,
    r: Option<String>,
)
    requires
        ours.bands@.len() == theirs.bands@.len() ==> numbers@.len() == ours.bands@.len(),
        call_ensures(Profile::disagreement, (&ours, &theirs, &preamp, &numbers), r),
    ensures
        r is None <==> (!preamp.differs && ours.bands@.len() == theirs.bands@.len() && forall|i: int|
            0 <= i < ours.bands@.len() ==> {
                &&& (#[trigger] ours.bands@[i]).kind == theirs.bands@[i].kind
                &&& !numbers@[i].fc.differs
                &&& !numbers@[i].gain_db.differs
                &&& !numbers@[i].q.differs
            }),
{
    lemma_cascade_agrees(ours.bands@, theirs.bands@, numbers@, ours.bands@.len());
}

proof fn lemma_cascade_agrees(
    ours: Seq<Band>,
    theirs: Seq<Band>,
    numbers: Seq<BandComparison>,
    count: nat,
)
    ensures
        cascade_difference(ours, theirs, numbers, count) is None <==> forall|i: int|
            0 <= i < count ==> {
                &&& (#[trigger] ours[i]).kind == theirs[i].kind
                &&& !numbers[i].fc.differs
                &&& !numbers[i].gain_db.differs
                &&& !numbers[i].q.differs
            },
    decreases count,
{
    if count > 0 {
        lemma_cascade_agrees(ours, theirs, numbers, (count - 1) as nat);
        let last = ours[count - 1];
    }
}

proof fn lemma_place(words: Seq<Seq<char>>, a: Seq<char>, b: Seq<char>, at: int)
    requires
        0 <= at <= words.len(),
        at < words.len() ==> alike(words[at], a) || alike(words[at], b),
        forall|i: int| 0 <= i < at ==> !alike(#[trigger] words[i], a) && !alike(words[i], b),
    ensures
        place(words, a, b) == at,
    decreases words.len(),
{
    if at > 0 {
        assert(!alike(words[0], a));
        let rest = words.drop_first();
        assert forall|i: int| 0 <= i < at - 1 implies !alike(#[trigger] rest[i], a) && !alike(
            rest[i],
            b,
        ) by {
            assert(rest[i] == words[i + 1]);
        }
        if at < words.len() {
            assert(rest[at - 1] == words[at]);
        }
        lemma_place(rest, a, b, at - 1);
    }
}

/// The word after a key, where the key occurs first, is what is given for it.
pub proof fn a_key_gives_the_word_after_it(tokens: Seq<Seq<char>>, key: Seq<char>, at: int)
    requires
        0 <= at <= tokens.len(),
        at < tokens.len() ==> alike(tokens[at], key),
        forall|i: int| 0 <= i < at ==> !alike(#[trigger] tokens[i], key),
    ensures
        at + 1 < tokens.len() ==> entry_for(tokens, key) == Entry::Given(tokens[at + 1]),
        at + 1 == tokens.len() ==> entry_for(tokens, key) is Nothing,
        at == tokens.len() ==> entry_for(tokens, key) is Absent,
{
    lemma_place(tokens, key, key, at);
}

/// A filter line tells whether the filter is on, its type in the next word, and its three
/// numbers after their keys. A comment and a line of any other kind tell nothing.
pub proof fn a_filter_line_tells_its_numbers(row: Seq<char>, switch: int, at: int)
    ensures
        ({
            let text = trimmed(row);
            let tokens = words(text);
            let line = line_of(row);
            let is_row = text.len() > 0 && text[0] != '#' && tokens.len() > 0;
            let is_switch = 0 <= switch && switch + 1 < tokens.len() && (alike(
                tokens[switch],
                "ON"@,
            ) || alike(tokens[switch], "OFF"@)) && forall|i: int|
                0 <= i < switch ==> !alike(#[trigger] tokens[i], "ON"@) && !alike(tokens[i], "OFF"@);
            let is_filter = is_row && !alike(tokens[0], "Preamp:"@) && !alike(tokens[0], "Preamp"@)
                && alike(tokens[0], "Filter"@);
            &&& !is_row ==> line is None
            &&& is_row && alike(tokens[0], "Preamp:"@) && tokens.len() > 1 ==> line == Some(
                LineModel::Preamp { text, value: Entry::Given(tokens[1]) },
            )
            &&& is_row && alike(tokens[0], "Preamp"@) && tokens.len() == 1 ==> line == Some(
                LineModel::Preamp { text, value: Entry::Nothing },
            )
            &&& is_row && !is_filter && line is Some ==> line->0 is Preamp
            &&& is_filter && is_switch && BandType::named(tokens[switch + 1]) is None
                ==> line is None
            &&& is_filter && is_switch && BandType::named(tokens[switch + 1]) is Some
                ==> line is Some && line->0 is Filter && line->0->Filter_text == text
                && line->0->enabled == alike(tokens[switch], "ON"@) && Some(line->0->kind)
                == BandType::named(tokens[switch + 1])
            &&& line is Some && line->0 is Filter && 0 <= at && at + 1 < tokens.len() && alike(
                tokens[at],
                "Fc"@,
            ) && (forall|i: int| 0 <= i < at ==> !alike(#[trigger] tokens[i], "Fc"@))
                ==> line->0->fc == Entry::Given(tokens[at + 1])
            &&& line is Some && line->0 is Filter && 0 <= at && at + 1 < tokens.len() && alike(
                tokens[at],
                "Gain"@,
            ) && (forall|i: int| 0 <= i < at ==> !alike(#[trigger] tokens[i], "Gain"@))
                ==> line->0->gain_db == Entry::Given(tokens[at + 1])
            &&& line is Some && line->0 is Filter && 0 <= at && at + 1 < tokens.len() && alike(
                tokens[at],
                "Q"@,
            ) && (forall|i: int| 0 <= i < at ==> !alike(#[trigger] tokens[i], "Q"@))
                ==> line->0->q == Entry::Given(tokens[at + 1])
        }),
{
    let text = trimmed(row);
    let tokens = words(text);
    if 0 <= switch && switch + 1 < tokens.len() && (alike(tokens[switch], "ON"@) || alike(
        tokens[switch],
        "OFF"@,
    )) && forall|i: int|
        0 <= i < switch ==> !alike(#[trigger] tokens[i], "ON"@) && !alike(tokens[i], "OFF"@) {
        lemma_place(tokens, "ON"@, "OFF"@, switch);
    }
    if 0 <= at && at + 1 < tokens.len() {
        if alike(tokens[at], "Fc"@) && forall|i: int|
            0 <= i < at ==> !alike(#[trigger] tokens[i], "Fc"@) {
            lemma_place(tokens, "Fc"@, "Fc"@, at);
        }
        if alike(tokens[at], "Gain"@) && forall|i: int|
            0 <= i < at ==> !alike(#[trigger] tokens[i], "Gain"@) {
            lemma_place(tokens, "Gain"@, "Gain"@, at);
        }
        if alike(tokens[at], "Q"@) && forall|i: int|
            0 <= i < at ==> !alike(#[trigger] tokens[i], "Q"@) {
            lemma_place(tokens, "Q"@, "Q"@, at);
        }
    }
}

/// The first thing in which two readings of a band differ is told: its type, then its
/// frequency, its gain and its quality.
pub proof fn the_first_difference_of_a_band_is_told(
    band: nat,
    ours: Band,
    theirs: Band,
    numbers: BandComparison,
)
    ensures
        ({
            let told = band_difference(band, ours, theirs, numbers);
            let intro = "Reading filter "@ + decimal(band);
            &&& ours.kind != theirs.kind ==> told == Some(
                intro + " as "@ + ours.kind.title() + ", but the renderer reads "@
                    + theirs.kind.title() + "."@,
            )
            &&& ours.kind == theirs.kind && numbers.fc.differs ==> told == Some(
                intro + "'s "@ + "Fc"@ + " as "@ + numbers.fc.ours@ + ", but the renderer reads "@
                    + numbers.fc.theirs@ + "."@,
            )
            &&& ours.kind == theirs.kind && !numbers.fc.differs && numbers.gain_db.differs ==> told
                == Some(
                intro + "'s "@ + "gain"@ + " as "@ + numbers.gain_db.ours@
                    + ", but the renderer reads "@ + numbers.gain_db.theirs@ + "."@,
            )
            &&& ours.kind == theirs.kind && !numbers.fc.differs && !numbers.gain_db.differs
                && numbers.q.differs ==> told == Some(
                intro + "'s "@ + "Q"@ + " as "@ + numbers.q.ours@ + ", but the renderer reads "@
                    + numbers.q.theirs@ + "."@,
            )
        }),
        BandType::LowShelf.title() == "LowShelf"@,
        BandType::HighShelf.title() == "HighShelf"@,
        BandType::LowPass.title() == "LowPass"@,
        BandType::HighPass.title() == "HighPass"@,
        BandType::BandPass.title() == "BandPass"@,
        BandType::Notch.title() == "Notch"@,
        BandType::Peaking.title() == "Peaking"@,
{
}

} // verus!
