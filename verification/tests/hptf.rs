use ac4_player::hptf_profile::{
    lines, to_parametric_eq, AddedBand, Adjustment, Band, BandComparison, BandType, Comparison,
    Entry, Line, NumberLine, Profile, WordLine, WrittenBand, BASS_LIMIT_DB, MAX_BANDS,
    TILT_LIMIT_DB,
};

const AUTOEQ: &str = "\
Preamp: -4.1 dB
Filter 1: ON LSC Fc 105 Hz Gain 9.7 dB Q 0.70
Filter 2: ON PK Fc 46 Hz Gain -9.2 dB Q 0.37
Filter 3: ON PK Fc 1722 Hz Gain 2.8 dB Q 0.95
Filter 4: ON PK Fc 4643 Hz Gain 9.2 dB Q 1.99
Filter 5: ON PK Fc 5779 Hz Gain -9.2 dB Q 1.50
Filter 6: ON PK Fc 128 Hz Gain 0.5 dB Q 2.09
Filter 7: ON PK Fc 242 Hz Gain -0.7 dB Q 2.04
Filter 8: ON PK Fc 705 Hz Gain 0.8 dB Q 2.45
Filter 9: ON PK Fc 2955 Hz Gain -0.9 dB Q 4.58
Filter 10: ON HSC Fc 10000 Hz Gain -2.2 dB Q 0.70
";

fn number(entry: Entry<String>) -> Entry<Option<u64>> {
    match entry {
        Entry::Absent => Entry::Absent,
        Entry::Nothing => Entry::Nothing,
        Entry::Given(word) => Entry::Given(word.parse::<f64>().ok().map(f64::to_bits)),
    }
}

fn read(line: WordLine) -> NumberLine {
    match line {
        Line::Preamp { text, value } => Line::Preamp { text, value: number(value) },
        Line::Filter { text, enabled, kind, fc, gain_db, q } => Line::Filter {
            text,
            enabled,
            kind,
            fc: number(fc),
            gain_db: number(gain_db),
            q: number(q),
        },
    }
}

fn parse(text: &str) -> Result<Profile, String> {
    Profile::parse(&lines(text).into_iter().map(read).collect())
}

fn preamp(profile: &Profile) -> f64 {
    f64::from_bits(profile.preamp_db)
}

#[test]
fn a_published_preset_parses_to_its_own_filter_list() {
    let profile = parse(AUTOEQ).unwrap();
    assert_eq!(profile.bands(), 10);
    assert!((preamp(&profile) - -4.1).abs() < 1e-9);
    let first = profile.cascade()[0];
    assert_eq!(first.kind, BandType::LowShelf);
    assert_eq!(f64::from_bits(first.fc), 105.0);
    assert_eq!(f64::from_bits(first.gain_db), 9.7);
    assert_eq!(f64::from_bits(first.q), 0.70);
    assert_eq!(profile.cascade()[9].kind, BandType::HighShelf);
}

#[test]
fn the_renderers_tolerances_are_matched_line_for_line() {
    let profile = parse(
        "# a comment\r\nPreamp: -1.5 dB\r\n\
         Filter 1: ON PK Fc 1000 Hz Gain 3 dB Q 1.0\r\n\
         Filter 2: OFF PK Fc 2000 Hz Gain 9 dB Q 1.0\r\n\
         Filter 3: ON XYZ Fc 3000 Hz Gain 9 dB Q 1.0\r\n\
         Filter 4: ON\r\n\
         something else entirely\r\n\
         Filter 5: ON LS Fc 200 Hz Gain 2 dB\r\n",
    )
    .unwrap();
    assert_eq!(profile.bands(), 2);
    assert!((preamp(&profile) - -1.5).abs() < 1e-9);
    assert_eq!(f64::from_bits(profile.cascade()[1].q), 0.707);

    assert!(parse("Preamp: loud\n").is_err());
    assert!(parse("Filter 1: ON PK Fc 0 Hz Gain 3 dB Q 1.0\n").is_err());
    assert!(parse("Filter 1: ON PK Fc 100 Hz Gain 3 dB Q -1\n").is_err());
    assert!(parse("Filter 1: ON PK Fc x Hz Gain 3 dB Q 1\n").is_err());
    assert!(parse("\n# nothing but a comment\n").is_err());
}

#[test]
fn every_rejection_names_the_line() {
    for (text, message) in [
        ("Preamp: loud dB\n", "Preamp is not a number: Preamp: loud dB"),
        ("Preamp:\n", "Preamp is not a number: Preamp:"),
        ("  preamp inf dB \n", "Preamp must be a finite number: preamp inf dB"),
        ("Filter 1: ON PK Gain 3 dB\n", "Filter line has no readable Fc: Filter 1: ON PK Gain 3 dB"),
        (
            "Filter 1: ON PK Fc 9 Hz Gain x dB\n",
            "Gain is not a number: Filter 1: ON PK Fc 9 Hz Gain x dB",
        ),
        ("Filter 1: ON PK Fc 9 Hz Q\n", "Q is not a number: Filter 1: ON PK Fc 9 Hz Q"),
        (
            "Filter 1: off PK Fc -9 Hz\n",
            "Fc must be a finite positive number: Filter 1: off PK Fc -9 Hz",
        ),
        (
            "Filter 1: ON PK Fc 9 Hz Q 0\n",
            "Q must be a finite positive number: Filter 1: ON PK Fc 9 Hz Q 0",
        ),
        (
            "Filter 1: ON PK Fc 9 Hz Gain nan dB\n",
            "Gain must be a finite number: Filter 1: ON PK Fc 9 Hz Gain nan dB",
        ),
        ("", "No Preamp or Filter line found"),
    ] {
        assert_eq!(parse(text).unwrap_err(), message);
    }
}

#[test]
fn the_bass_knob_is_the_shelf_autoeq_boosts_with() {
    let bands = Adjustment { bass_db: 6.0_f32.to_bits(), ..Adjustment::default() }.bands();
    assert_eq!(bands, [AddedBand::Bass]);
    let both = Adjustment {
        bass_db: 1.0_f32.to_bits(),
        tilt_db_per_octave: (-0.5_f32).to_bits(),
    };
    assert_eq!(
        both.bands(),
        [
            AddedBand::Bass,
            AddedBand::TiltShelf(0),
            AddedBand::TiltShelf(1),
            AddedBand::TiltShelf(2)
        ]
    );
}

fn peak(fc: f64, gain_db: f64, q: f64) -> Band {
    Band {
        kind: BandType::Peaking,
        fc: fc.to_bits(),
        gain_db: gain_db.to_bits(),
        q: q.to_bits(),
    }
}

#[test]
fn a_knob_at_rest_costs_nothing_and_a_full_cascade_refuses_the_rest() {
    let rest = Adjustment::default();
    assert!(rest.is_flat());
    assert!(rest.bands().is_empty());
    assert!(Adjustment { bass_db: (-0.0_f32).to_bits(), ..rest }.is_flat());

    let band = peak(1_000.0, 1.0, 1.0);
    let one_db = (-1.0_f64).to_bits();
    let full = Profile::of_bands(one_db, vec![band; MAX_BANDS]);
    assert_eq!(
        full.with(&Vec::new(), one_db).unwrap().bands(),
        u32::try_from(MAX_BANDS).unwrap()
    );
    assert_eq!(
        full.with(&vec![band], one_db).unwrap_err(),
        "This profile uses 32 of 32 filters and the adjustment needs 1 more"
    );
    let nearly = Profile::of_bands(one_db, vec![band; MAX_BANDS - 1]);
    assert!(nearly.with(&vec![band], one_db).is_ok());
    assert!(nearly.with(&vec![band; 3], one_db).is_err());

    let past = Adjustment {
        bass_db: 99.0_f32.to_bits(),
        tilt_db_per_octave: (-99.0_f32).to_bits(),
    }
    .clamped();
    assert_eq!(past.bass_db, BASS_LIMIT_DB);
    assert_eq!(f32::from_bits(past.tilt_db_per_octave), -f32::from_bits(TILT_LIMIT_DB));
}

fn write(profile: &Profile) -> String {
    let bands = profile
        .cascade()
        .iter()
        .map(|band| WrittenBand {
            kind: band.kind,
            fc: f64::from_bits(band.fc).to_string(),
            gain_db: f64::from_bits(band.gain_db).to_string(),
            q: f64::from_bits(band.q).to_string(),
        })
        .collect();
    to_parametric_eq(&preamp(profile).to_string(), &bands)
}

#[test]
fn a_saved_profile_reads_back_as_the_very_same_cascade() {
    let knobs = Adjustment {
        bass_db: 2.5_f32.to_bits(),
        tilt_db_per_octave: (-1.0_f32).to_bits(),
    };
    let step = 20_000.0_f64.log2() / 3.0;
    let added: Vec<Band> = knobs
        .bands()
        .into_iter()
        .map(|band| match band {
            AddedBand::Bass => (105.0_f64, 2.5_f64, 0.70_f64),
            AddedBand::TiltShelf(index) => {
                (20_000.0_f64.powf((f64::from(index) + 0.5) / 3.0), step, 0.38)
            }
        })
        .map(|(fc, gain_db, q)| Band {
            kind: BandType::LowShelf,
            fc: fc.to_bits(),
            gain_db: gain_db.to_bits(),
            q: q.to_bits(),
        })
        .collect();
    assert_eq!(added.len(), 4);
    let published = parse(AUTOEQ).unwrap();
    let tuned = published
        .with(&added, (preamp(&published) + 4.38 * -1.0).to_bits())
        .unwrap();
    assert_eq!(tuned.cascade().len(), 14);
    let text = write(&tuned);
    let reread = parse(&text).unwrap();
    assert_eq!(tuned.preamp_db, reread.preamp_db);
    assert_eq!(tuned.cascade().len(), reread.cascade().len());
    for (ours, back) in tuned.cascade().iter().zip(reread.cascade()) {
        assert_eq!(ours, back);
    }
    assert_eq!(disagreement(&tuned, &reread), None);
    for kind in [
        BandType::Peaking,
        BandType::LowShelf,
        BandType::HighShelf,
        BandType::LowPass,
        BandType::HighPass,
        BandType::BandPass,
        BandType::Notch,
    ] {
        let word: Vec<char> = kind.token().to_lowercase().chars().collect();
        assert_eq!(BandType::parse(&word), Some(kind));
    }
}

#[test]
fn the_two_rejections_the_renderer_makes_are_made_here_too() {
    let band = "Filter 1: ON PK Fc 1000 Hz Gain 1 dB Q 1\n";
    assert!(parse(&band.repeat(MAX_BANDS)).is_ok());
    assert_eq!(
        parse(&band.repeat(MAX_BANDS + 1)).unwrap_err(),
        "More than 32 filters are enabled: 33"
    );
    let off = "Filter 1: OFF PK Fc 1000 Hz Gain 1 dB Q 1\n";
    assert!(parse(&format!("{}{}", band.repeat(MAX_BANDS), off.repeat(8))).is_ok());
    for preamp in ["inf", "-inf", "nan"] {
        assert!(
            parse(&format!("Preamp: {preamp} dB\n{band}")).is_err(),
            "{preamp} must be refused"
        );
    }
}

fn compared(ours: u64, theirs: u64) -> Comparison {
    let (ours, theirs) = (f64::from_bits(ours), f64::from_bits(theirs));
    Comparison {
        differs: (ours - theirs).abs() > 1e-9,
        ours: ours.to_string(),
        theirs: theirs.to_string(),
    }
}

fn disagreement(ours: &Profile, theirs: &Profile) -> Option<String> {
    let numbers = ours
        .cascade()
        .iter()
        .zip(theirs.cascade())
        .map(|(a, b)| BandComparison {
            fc: compared(a.fc, b.fc),
            gain_db: compared(a.gain_db, b.gain_db),
            q: compared(a.q, b.q),
        })
        .collect();
    ours.disagreement(theirs, &compared(ours.preamp_db, theirs.preamp_db), &numbers)
}

#[test]
fn a_disagreement_names_the_band_and_the_field_that_differs() {
    let three = (-3.0_f64).to_bits();
    let ours = Profile::of_bands(three, vec![peak(1000.0, 6.0, 1.0), peak(80.0, -2.0, 0.7)]);
    assert_eq!(disagreement(&ours, &ours), None);
    let says = |other: &Profile| disagreement(&ours, other).expect("must disagree");
    assert!(says(&Profile::of_bands((-2.0_f64).to_bits(), ours.cascade().clone())).contains("preamp"));
    assert!(says(&Profile::of_bands(three, vec![peak(1000.0, 6.0, 1.0)]))
        .contains("enabled filters"));
    let second = |band: Band| Profile::of_bands(three, vec![ours.cascade()[0], band]);
    assert!(says(&second(peak(81.0, -2.0, 0.7))).contains("filter 2's Fc"));
    assert!(says(&second(peak(80.0, -2.5, 0.7))).contains("filter 2's gain"));
    assert!(says(&second(peak(80.0, -2.0, 0.71))).contains("filter 2's Q"));
    let shelf = Band { kind: BandType::LowShelf, ..ours.cascade()[1] };
    assert_eq!(
        says(&second(shelf)),
        "Reading filter 2 as Peaking, but the renderer reads LowShelf."
    );
}
