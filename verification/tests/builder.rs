use cuna::builder::State;
use cuna::error::Error;
use cuna::error::InvalidArgument;
use cuna::error::ParseError;
use cuna::header::Header;
use cuna::parser::Command;
use cuna::parser::Parna;
use cuna::time::TimeStamp;
use cuna::track::Index;
use cuna::track::Track;
use cuna::track::TrackInfo;
use cuna::Cuna;

fn sheet_of(lines: &[&str]) -> Cuna {
    let mut sheet = Cuna::default();
    for line in lines {
        Command::new(line).unwrap().parse(&mut sheet).unwrap();
    }
    sheet
}

fn refusal(sheet: &mut Cuna, line: &str) -> String {
    let before = sheet.clone();
    let error = Command::new(line).unwrap().parse(sheet).unwrap_err();
    assert_eq!(*sheet, before);
    match error {
        ParseError::SyntaxError(m) => m,
        other => panic!("not a syntax error: {:?}", other),
    }
}

#[test]
fn one_file_one_track_two_index_points() {
    let sheet = Cuna::new(
        "FILE \"a.wav\" WAVE\n  TRACK 01 AUDIO\n    INDEX 01 00:00:00\n    INDEX 02 03:00:00",
    )
    .unwrap();
    assert_eq!(sheet.files.len(), 1);
    assert_eq!(sheet.files[0].name, "a.wav");
    assert_eq!(sheet.files[0].format, "WAVE");
    assert_eq!(sheet.files[0].tracks.len(), 1);
    let track = &sheet.files[0].tracks[0];
    assert_eq!(track.id(), 1);
    assert_eq!(track.format(), "AUDIO");
    assert_eq!(track.index.len(), 2);
    assert_eq!(track.index[0], Index::new(1, TimeStamp::new(0, 0, 0)));
    assert_eq!(track.index[1], Index::new(2, TimeStamp::new(3, 0, 0)));
    assert_eq!(track.index[0].begin_time().to_string(), "00:00:00");
    assert_eq!(track.index[1].begin_time().to_string(), "03:00:00");
    assert_eq!(sheet.header, Header::default());
    assert!(sheet.comments.0.is_empty());
}

#[test]
fn index_before_any_track_fails_at_line_one() {
    let error = Cuna::new("INDEX 01 00:00:00").unwrap_err();
    assert_eq!(error.pos(), Some(1));
    match error.kind() {
        ParseError::SyntaxError(m) => assert_eq!(m, "INDEX 01 00:00:00: no current track"),
        other => panic!("{:?}", other),
    }
    assert_eq!(error.to_string(), "SyntaxError: INDEX 01 00:00:00: no current track at line 1");
    let error = Cuna::new("FILE \"a.wav\" WAVE\nINDEX 01 00:00:00").unwrap_err();
    assert_eq!(error.pos(), Some(2));
    match error.kind() {
        ParseError::SyntaxError(m) => assert_eq!(m, "INDEX 01 00:00:00: no current track"),
        other => panic!("{:?}", other),
    }
}

#[test]
fn tolerant_reading_drops_the_bogus_line() {
    let sheet = Cuna::new_suc("TITLE \"A\"\nBOGUS LINE\nPERFORMER \"B\"");
    assert_eq!(sheet.header.title, vec!["A"]);
    assert_eq!(sheet.header.performer, vec!["B"]);
    assert!(sheet.header.songwriter.is_empty());
    assert!(sheet.files.is_empty());
    assert!(sheet.comments.0.is_empty());
    assert!(Cuna::new("TITLE \"A\"\nBOGUS LINE\nPERFORMER \"B\"").is_err());
}

#[test]
fn tolerant_reading_drops_lines_that_are_refused_when_applied() {
    let sheet = Cuna::new_suc(
        "\u{feff}CATALOG 1234567890123\nCATALOG 3210987654321\nINDEX 01 00:00:00\nTRACK 01 AUDIO\n\
         FILE \"a\" WAVE\nTRACK 1 AUDIO\nTRACK 02 AUDIO\nPREGAP xx\nINDEX 01 00:00:00\nPREGAP 00:02:00\n\
         TITLE \"t\nTITLE t",
    );
    assert_eq!(sheet.catalog(), Some(1234567890123));
    assert_eq!(sheet.files.len(), 1);
    assert_eq!(sheet.files[0].tracks.len(), 1);
    let track = sheet.last_track().unwrap();
    assert_eq!(track.id(), 2);
    assert_eq!(track.pregap(), None);
    assert_eq!(track.index.len(), 1);
    assert_eq!(track.title(), &vec!["t".to_owned()]);
}

#[test]
fn catalog_of_three_digits_fails_and_of_thirteen_succeeds() {
    assert!(Cuna::new("CATALOG 123").is_err());
    assert_eq!(
        Cuna::new("CATALOG 123").unwrap_err().kind(),
        &ParseError::InvalidArgument(InvalidArgument::InvalidId)
    );
    assert_eq!(Cuna::new("CATALOG 1234567890123").unwrap().catalog(), Some(1234567890123));
}

#[test]
fn catalog_twice_fails_whatever_the_numbers() {
    for (first, second) in [(1234567890123u64, 1234567890123u64), (1, 2), (0, 9999999999999)] {
        let mut sheet = Cuna::default();
        Command::Catalog(first).parse(&mut sheet).unwrap();
        Command::new("TITLE x").unwrap().parse(&mut sheet).unwrap();
        Command::new("FILE \"a\" WAVE").unwrap().parse(&mut sheet).unwrap();
        let before = sheet.clone();
        let error = Command::Catalog(second).parse(&mut sheet).unwrap_err();
        match error {
            ParseError::SyntaxError(m) => assert_eq!(
                m,
                format!("CATALOG {:013}: multiple `CATALOG` commands is not allowed", second)
            ),
            other => panic!("{:?}", other),
        }
        assert_eq!(sheet, before);
        assert_eq!(sheet.catalog(), Some(first));
    }
}

#[test]
fn catalog_of_more_than_13_digits_is_refused_when_applied() {
    let mut sheet = Cuna::default();
    assert_eq!(
        Command::Catalog(10_000_000_000_000).parse(&mut sheet),
        Err(ParseError::InvalidArgument(InvalidArgument::InvalidId))
    );
    assert_eq!(sheet, Cuna::default());
    assert_eq!(Command::Catalog(9_999_999_999_999).parse(&mut sheet), Ok(()));
    assert_eq!(sheet.catalog(), Some(9_999_999_999_999));
}

#[test]
fn pregap_after_index_fails_with_the_ordering_error() {
    let mut sheet = sheet_of(&["FILE \"a\" WAVE", "TRACK 01 AUDIO", "INDEX 01 00:00:00"]);
    assert_eq!(
        refusal(&mut sheet, "PREGAP 00:02:00"),
        "PREGAP 00:02:00: Command `PREGAP` should be before `INDEX`"
    );
    sheet_of(&["FILE \"a\" WAVE", "TRACK 01 AUDIO", "PREGAP 00:02:00", "INDEX 01 00:00:00"]);
    let mut sheet = sheet_of(&["FILE \"a\" WAVE", "TRACK 01 AUDIO", "INDEX 00 00:00:00",
        "TITLE x", "ISRC y", "FLAGS DCP", "POSTGAP 00:01:00", "REM z", "CATALOG 1234567890123"]);
    assert_eq!(
        refusal(&mut sheet, "PREGAP 00:02:00"),
        "PREGAP 00:02:00: Command `PREGAP` should be before `INDEX`"
    );
    Command::new("TRACK 02 AUDIO").unwrap().parse(&mut sheet).unwrap();
    Command::new("PREGAP 00:02:00").unwrap().parse(&mut sheet).unwrap();
    assert_eq!(sheet.last_track().unwrap().pregap(), Some(&TimeStamp::new(0, 2, 0)));
    assert_eq!(sheet.files[0].tracks[0].pregap(), None);
}

#[test]
fn pregap_is_set_once() {
    let mut sheet = sheet_of(&["FILE \"a\" WAVE", "TRACK 01 AUDIO", "PREGAP 00:02:00"]);
    assert_eq!(
        refusal(&mut sheet, "PREGAP 00:03:00"),
        "PREGAP 00:03:00: Multiple `PREGAP` commands are not allowed in one `TRACK` scope"
    );
    Command::new("INDEX 01 00:00:00").unwrap().parse(&mut sheet).unwrap();
    assert_eq!(
        refusal(&mut sheet, "PREGAP 00:03:00"),
        "PREGAP 00:03:00: Multiple `PREGAP` commands are not allowed in one `TRACK` scope"
    );
    assert_eq!(sheet.last_track().unwrap().pregap(), Some(&TimeStamp::new(0, 2, 0)));
}

#[test]
fn index_after_postgap_fails() {
    let mut sheet = sheet_of(&["FILE \"a\" WAVE", "TRACK 01 AUDIO", "INDEX 01 00:00:00",
        "POSTGAP 00:02:00"]);
    assert_eq!(
        refusal(&mut sheet, "INDEX 02 00:01:00"),
        "INDEX 02 00:01:00: Command `INDEX` should be before `POSTGAP`"
    );
    assert_eq!(
        refusal(&mut sheet, "POSTGAP 00:03:00"),
        "POSTGAP 00:03:00: Multiple `POSTGAP` commands are not allowed in one `TRACK` scope"
    );
    assert_eq!(sheet.last_track().unwrap().postgap(), Some(&TimeStamp::new(0, 2, 0)));
}

#[test]
fn gaps_are_read_when_they_are_applied() {
    let mut sheet = sheet_of(&["FILE \"a\" WAVE", "TRACK 01 AUDIO"]);
    for line in ["PREGAP soon", "PREGAP 00:00:75", "POSTGAP 1:2:3", "POSTGAP 00:60:00"] {
        let before = sheet.clone();
        assert_eq!(
            Command::new(line).unwrap().parse(&mut sheet),
            Err(ParseError::InvalidArgument(InvalidArgument::InvalidTimestamp))
        );
        assert_eq!(sheet, before);
    }
    let mut empty = Cuna::default();
    assert_eq!(refusal(&mut empty, "PREGAP soon"), "PREGAP soon: no current track");
    assert_eq!(refusal(&mut empty, "POSTGAP soon"), "POSTGAP soon: no current track");
}

#[test]
fn isrc_and_flags_are_set_once() {
    let mut sheet = sheet_of(&["FILE \"a\" WAVE", "TRACK 01 AUDIO", "ISRC JPPI00652340",
        "FLAGS DCP 4CH  PRE"]);
    assert_eq!(sheet.last_track().unwrap().isrc(), Some("JPPI00652340"));
    assert_eq!(sheet.last_track().unwrap().flags(), &vec!["DCP", "4CH", "", "PRE"]);
    assert_eq!(
        refusal(&mut sheet, "ISRC x"),
        "ISRC x: Multiple `ISRC` commands are not allowed in one `TRACK` scope"
    );
    assert_eq!(
        refusal(&mut sheet, "FLAGS SCMS"),
        "FLAGS SCMS: Multiple `FLAGS` commands are not allowed in one `TRACK` scope"
    );
    let mut empty = Cuna::default();
    assert_eq!(refusal(&mut empty, "ISRC x"), "ISRC x: no current track");
    assert_eq!(refusal(&mut empty, "FLAGS DCP"), "FLAGS DCP: no current track");
}

#[test]
fn track_needs_a_file() {
    let mut sheet = Cuna::default();
    assert_eq!(refusal(&mut sheet, "TRACK 01 AUDIO"), "TRACK 01 AUDIO: no current file");
    let mut sheet = sheet_of(&["TITLE x", "REM y"]);
    assert_eq!(refusal(&mut sheet, "track 01 AUDIO"), "TRACK 01 AUDIO: no current file");
}

#[test]
fn ids_above_99_are_refused_when_applied() {
    let mut sheet = sheet_of(&["FILE \"a\" WAVE"]);
    let before = sheet.clone();
    assert_eq!(
        Command::Track(100, "AUDIO").parse(&mut sheet),
        Err(ParseError::InvalidArgument(InvalidArgument::InvalidId))
    );
    assert_eq!(sheet, before);
    Command::Track(99, "AUDIO").parse(&mut sheet).unwrap();
    let before = sheet.clone();
    assert_eq!(
        Command::Index(100, TimeStamp::new(0, 0, 0)).parse(&mut sheet),
        Err(ParseError::InvalidArgument(InvalidArgument::InvalidId))
    );
    assert_eq!(sheet, before);
    Command::Index(99, TimeStamp::new(0, 0, 0)).parse(&mut sheet).unwrap();
    Command::Index(0, TimeStamp::new(0, 0, 1)).parse(&mut sheet).unwrap();
    assert_eq!(sheet.last_track().unwrap().index.len(), 2);
    let mut empty = Cuna::default();
    assert_eq!(refusal(&mut empty, "TRACK 01 AUDIO"), "TRACK 01 AUDIO: no current file");
    assert!(matches!(
        Command::Track(200, "AUDIO").parse(&mut empty),
        Err(ParseError::SyntaxError(_))
    ));
}

#[test]
fn names_go_to_the_current_track_or_else_to_the_disc() {
    let sheet = sheet_of(&["TITLE disc", "PERFORMER artist", "SONGWRITER writer",
        "FILE \"a\" WAVE", "TITLE still disc", "TRACK 01 AUDIO", "TITLE one", "PERFORMER p1",
        "SONGWRITER s1", "TITLE one again", "TRACK 02 AUDIO", "TITLE two", "FILE \"b\" WAVE",
        "PERFORMER disc again", "TRACK 03 AUDIO", "SONGWRITER s3"]);
    assert_eq!(sheet.title(), &vec!["disc", "still disc"]);
    assert_eq!(sheet.performer(), &vec!["artist", "disc again"]);
    assert_eq!(sheet.songwriter(), &vec!["writer"]);
    assert_eq!(sheet.files[0].tracks[0].title(), &vec!["one", "one again"]);
    assert_eq!(sheet.files[0].tracks[0].performer(), &vec!["p1"]);
    assert_eq!(sheet.files[0].tracks[0].songwriter(), &vec!["s1"]);
    assert_eq!(sheet.files[0].tracks[1].title(), &vec!["two"]);
    assert!(sheet.files[0].tracks[1].performer().is_empty());
    assert_eq!(sheet.files[1].tracks[0].songwriter(), &vec!["s3"]);
    assert!(sheet.files[1].tracks[0].title().is_empty());
}

#[test]
fn cdtextfile_takes_the_last_value() {
    let sheet = sheet_of(&["CDTEXTFILE \"a.cdt\"", "FILE \"a\" WAVE", "TRACK 01 AUDIO",
        "CDTEXTFILE b.cdt"]);
    assert_eq!(sheet.header.cdtextfile(), Some("b.cdt"));
}

#[test]
fn files_and_remarks_are_accepted_everywhere() {
    let sheet = sheet_of(&["REM a", "FILE \"a\" WAVE", "REM b", "FILE \"b\" BINARY",
        "TRACK 01 AUDIO", "REM c", "FILE \"c\" MP3", "", "REM d"]);
    assert_eq!(sheet.comments.0, vec!["a", "b", "c", "d"]);
    let names: Vec<&str> = sheet.files.iter().map(|f| f.name.as_str()).collect();
    assert_eq!(names, vec!["a", "b", "c"]);
    assert_eq!(sheet.files[1].tracks.len(), 1);
    assert!(sheet.last_track().is_none());
    assert_eq!(sheet.last_file().unwrap().format, "MP3");
    assert_eq!(sheet.first_file().unwrap().format, "WAVE");
}

#[test]
fn an_empty_directive_changes_nothing() {
    let mut sheet = sheet_of(&["FILE \"a\" WAVE", "TRACK 01 AUDIO"]);
    let before = sheet.clone();
    assert_eq!(Command::Empty.parse(&mut sheet), Ok(()));
    assert_eq!(sheet, before);
}

#[test]
fn fail_fast_reading_reports_the_first_bad_line() {
    let error = Cuna::new("REM a\n\nTITLE x\nBOGUS\nALSO BOGUS").unwrap_err();
    assert_eq!(error.pos(), Some(4));
    match error.kind() {
        ParseError::UnexpectedToken(word) => assert_eq!(word, "BOGUS"),
        other => panic!("{:?}", other),
    }
    assert_eq!(error.to_string(), "UnexpetedToken: BOGUS at line 4");
    let error = Cuna::new("REM a\r\nINDEX 01 00:00:99\r\n").unwrap_err();
    assert_eq!(error.pos(), Some(2));
    assert_eq!(error.kind(), &ParseError::InvalidArgument(InvalidArgument::InvalidTimestamp));
    assert_eq!(error.to_string(), "Invalid timestamp at line 2");
    assert!(Cuna::new("").unwrap() == Cuna::default());
    assert_eq!("REM a".parse::<Cuna>().unwrap().comments.0, vec!["a"]);
}

#[test]
fn a_byte_order_mark_is_dropped_from_the_first_line_only() {
    assert_eq!(Cuna::new("\u{feff}REM a").unwrap().comments.0, vec!["a"]);
    let error = Cuna::new("REM a\n\u{feff}REM b").unwrap_err();
    assert_eq!(error.pos(), Some(2));
    assert_eq!(Cuna::new_suc("\u{feff}REM a\n\u{feff}REM b\nREM c").comments.0, vec!["a", "c"]);
}

#[test]
fn parser_goes_on_behind_a_line_that_failed() {
    let mut parser = Parna::new("REM a\nBOGUS\nREM b\nINDEX 01 00:00:00\nREM c");
    let mut sheet = Cuna::default();
    assert_eq!(parser.current(), Some((0, "REM a")));
    let error = parser.parse(&mut sheet).unwrap_err();
    assert_eq!(error.pos(), Some(2));
    assert_eq!(parser.current(), Some((2, "REM b")));
    assert_eq!(parser.data(), &[(2, "REM b"), (3, "INDEX 01 00:00:00"), (4, "REM c")]);
    let error = parser.parse(&mut sheet).unwrap_err();
    assert_eq!(error.pos(), Some(4));
    assert_eq!(parser.parse_next_line(&mut sheet), Ok(()));
    assert_eq!(parser.current_line(), None);
    assert_eq!(parser.current(), None);
    assert_eq!(parser.parse_next_line(&mut sheet), Ok(()));
    assert_eq!(parser.parse(&mut sheet), Ok(()));
    assert_eq!(sheet.comments.0, vec!["a", "b", "c"]);
    assert!(parser.data().is_empty());
}

#[test]
fn parser_reads_at_most_the_lines_it_is_asked_for() {
    let mut parser = Parna::from_lines(vec!["REM a", "REM b", "REM c"]);
    let mut sheet = Cuna::default();
    assert_eq!(parser.parse_next_n_lines(0, &mut sheet), Ok(()));
    assert_eq!(parser.current_line(), Some("REM a"));
    assert_eq!(parser.parse_next_n_lines(2, &mut sheet), Ok(()));
    assert_eq!(sheet.comments.0, vec!["a", "b"]);
    assert_eq!(parser.current(), Some((2, "REM c")));
    assert_eq!(parser.parse_next_n_lines(usize::MAX, &mut sheet), Ok(()));
    assert_eq!(sheet.comments.0, vec!["a", "b", "c"]);
    parser.set_lines(vec!["REM d", "BOGUS"]);
    assert_eq!(parser.current(), Some((0, "REM d")));
    assert_eq!(parser.parse_next_n_lines(5, &mut sheet).unwrap_err().pos(), Some(2));
    assert_eq!(sheet.comments.0, vec!["a", "b", "c", "d"]);
}

#[test]
fn parser_keeps_the_numbers_it_is_given() {
    let mut parser = Parna::with_iter(vec![(10, "REM a"), (20, "BOGUS"), (7, "TRACK 01 AUDIO")]);
    let mut sheet = Cuna::default();
    assert_eq!(parser.parse(&mut sheet).unwrap_err().pos(), Some(21));
    assert_eq!(parser.parse(&mut sheet).unwrap_err().pos(), Some(8));
    let mut parser = Parna::with_iter(vec![(1, "BOGUS"), (2, "REM b"), (3, "ISRC x")]);
    parser.parse_suc(&mut sheet);
    assert_eq!(sheet.comments.0, vec!["a", "b"]);
    assert_eq!(parser.current(), None);
}

#[test]
fn one_line_at_a_time() {
    let mut sheet = Cuna::default();
    assert_eq!(sheet.parse_line(1, "FILE \"a\" WAVE\n"), Ok(()));
    assert_eq!(sheet.parse_line(2, "  TRACK 01 AUDIO\r\n"), Ok(()));
    let before = sheet.clone();
    let error = sheet.parse_line(3, "TRACK 1 AUDIO").unwrap_err();
    assert_eq!(error.pos(), Some(3));
    assert_eq!(error.kind(), &ParseError::InvalidArgument(InvalidArgument::InvalidId));
    assert_eq!(sheet, before);
    let error = sheet.parse_line(usize::MAX, "PREGAP x").unwrap_err();
    assert_eq!(error.pos(), Some(usize::MAX));
    assert_eq!(sheet, before);
}

#[test]
fn sheet_accessors() {
    let mut sheet = Cuna::new(
        "FILE \"a\" WAVE\nTRACK 01 AUDIO\nTRACK 02 AUDIO\nFILE \"b\" WAVE\nFILE \"c\" WAVE\nTRACK 03 AUDIO",
    )
    .unwrap();
    let ids: Vec<u8> = sheet.tracks().iter().map(|t| t.id()).collect();
    assert_eq!(ids, vec![1, 2, 3]);
    assert_eq!(sheet.files().len(), 3);
    assert_eq!(sheet.last_track().unwrap().id(), 3);
    sheet.last_track_mut().unwrap().push_title("x".to_owned());
    assert_eq!(sheet.files[2].tracks[0].title(), &vec!["x"]);
    sheet.first_file_mut().unwrap().name = "first".to_owned();
    sheet.last_file_mut().unwrap().name = "last".to_owned();
    assert_eq!(sheet.files[0].name, "first");
    assert_eq!(sheet.files[2].name, "last");
    assert_eq!(sheet.files[0].get_track(2).unwrap().id(), 2);
    assert!(sheet.files[0].get_track(3).is_none());
    assert_eq!(sheet.files[0].last_track().unwrap().id(), 2);
    assert!(sheet.files[1].last_track().is_none());
    sheet.files[0].last_track_mut().unwrap().set_isrc("i".to_owned());
    assert_eq!(sheet.files[0].tracks[1].isrc(), Some("i"));
    let ids: Vec<u8> = (&sheet.files[0]).into_iter().map(|t| t.id()).collect();
    assert_eq!(ids, vec![1, 2]);
    let old = sheet.set_files(vec![TrackInfo::new("n".to_owned(), "f".to_owned())]);
    assert_eq!(old.len(), 3);
    assert_eq!(sheet.files.len(), 1);
    assert!(sheet.last_track().is_none());
    assert!(sheet.last_track_mut().is_none());
    sheet.push_file(TrackInfo::with_tracks("m".to_owned(), "g".to_owned(), vec![Track::new(9, "AUDIO".to_owned())]));
    assert_eq!(sheet.last_track().unwrap().id(), 9);
    let owned: Vec<Track> = sheet.files.pop().unwrap().into_iter().collect();
    assert_eq!(owned.len(), 1);
    let empty = Cuna::default();
    assert!(empty.first_file().is_none() && empty.last_file().is_none());
    assert!(empty.tracks().is_empty());
    let parts = Cuna::with_parts(sheet.header.clone(), Vec::new(), sheet.comments.clone());
    assert_eq!(parts.header(), sheet.header());
    assert_eq!(parts.comments(), sheet.comments());
}

#[test]
fn track_and_index_constructors() {
    assert_eq!(Index::new_opt(99, TimeStamp::default()).map(|i| i.id()), Some(99));
    assert_eq!(Index::new_opt(100, TimeStamp::default()), None);
    assert!(Track::new_opt(0, "AUDIO".to_owned()).is_none());
    assert_eq!(Track::new_opt(1, "AUDIO".to_owned()), Some(Track::new(1, "AUDIO".to_owned())));
    assert!(Track::new_opt(99, "AUDIO".to_owned()).is_some());
    assert!(Track::new_opt(100, "AUDIO".to_owned()).is_none());
    for id in 0..=255u8 {
        let track = Track::new_opt(id, "AUDIO".to_owned());
        assert_eq!(track.is_some(), 1 <= id && id <= 99);
        if let Some(t) = track {
            assert_eq!((t.id(), t.format()), (id, "AUDIO"));
            assert!(t.index().is_empty() && t.pregap().is_none() && t.postgap().is_none());
            assert!(t.isrc().is_none() && t.title().is_empty() && t.flags().is_empty());
        }
    }
    assert_eq!(Index::new_opt(0, TimeStamp::default()).map(|i| i.id()), Some(0));
    let mut track = Track::new(5, "AUDIO".to_owned());
    assert_eq!(track, Track { id: 5, format: "AUDIO".to_owned(), ..Track::default() });
    track.push_index(Index::new(1, TimeStamp::new(0, 0, 0)));
    track.push_index(Index::new(2, TimeStamp::new(0, 1, 0)));
    track.push_index(Index::new(1, TimeStamp::new(0, 2, 0)));
    assert_eq!(track.get_index(1), Some(&Index::new(1, TimeStamp::new(0, 0, 0))));
    assert_eq!(track.get_index(2).unwrap().begin_time(), &TimeStamp::new(0, 1, 0));
    assert_eq!(track.get_index(3), None);
    assert_eq!(track.set_pregep(TimeStamp::new(0, 2, 0)), None);
    assert_eq!(track.set_pregep(TimeStamp::new(0, 3, 0)), Some(TimeStamp::new(0, 2, 0)));
    assert_eq!(track.set_postgep(TimeStamp::new(0, 4, 0)), None);
    assert_eq!(track.set_isrc("a".to_owned()), None);
    assert_eq!(track.set_isrc("b".to_owned()), Some("a".to_owned()));
    track.push_flag("DCP".to_owned());
    track.push_flags(vec!["4CH".to_owned(), "PRE".to_owned()]);
    assert_eq!(track.flags(), &vec!["DCP", "4CH", "PRE"]);
    track.push_performer("p".to_owned());
    track.push_songwriter("s".to_owned());
    assert_eq!((track.performer().len(), track.songwriter().len(), track.index().len()), (1, 1, 3));
}

#[test]
fn track_and_index_are_read_from_whole_lines() {
    assert_eq!(Index::from_str("INDEX 01 00:02:00"), Ok(Index::new(1, TimeStamp::new(0, 2, 0))));
    assert_eq!("index 99 10:00:00".parse::<Index>(), Ok(Index::new(99, TimeStamp::new(10, 0, 0))));
    for line in ["INDEX 1 00:02:00", "INDEX 01 00:02:75", "INDEX 01  00:02:00", " INDEX 01 00:02:00",
        "INDEX 01", "TRACK 01 00:02:00", "INDEX 01 00:02:00 "]
    {
        assert_eq!(Index::from_str(line), Err(InvalidArgument::InvalidId), "{}", line);
    }
    assert_eq!(Track::from_str("TRACK 07 AUDIO"), Ok(Track::new(7, "AUDIO".to_owned())));
    assert_eq!("track 07  MODE1 x ".parse::<Track>(), Ok(Track::new(7, " MODE1 x ".to_owned())));
    assert_eq!(Track::from_str("TRACK 07 "), Ok(Track::new(7, "".to_owned())));
    for line in ["TRACK 7 AUDIO", "TRACK 07", "TRACK 007 AUDIO", "INDEX 07 AUDIO", "TRACK 07\tAUDIO"] {
        assert_eq!(Track::from_str(line), Err(InvalidArgument::InvalidId), "{}", line);
    }
}

#[test]
fn header_setters() {
    let mut header = Header::default();
    assert_eq!(header.set_catalog(1234567890123), Ok(None));
    assert_eq!(header.set_catalog(9999999999999), Ok(Some(1234567890123)));
    for bad in [0u64, 999_999_999_999, 10_000_000_000_000, u64::MAX] {
        assert_eq!(
            header.set_catalog(bad),
            Err(ParseError::InvalidArgument(InvalidArgument::InvalidId))
        );
    }
    assert_eq!(header.set_catalog(1_000_000_000_000), Ok(Some(9999999999999)));
    assert_eq!(header.catalog(), Some(1_000_000_000_000));
    assert_eq!(header.set_cdtextfile("a".to_owned()), None);
    assert_eq!(header.set_cdtextfile("b".to_owned()), Some("a".to_owned()));
    assert_eq!(header.cdtextfile(), Some("b"));
    header.push_title("t".to_owned());
    header.push_performer("p".to_owned());
    header.push_songwriter("s".to_owned());
    header.title_mut().push("t2".to_owned());
    header.performer_mut().clear();
    header.songwriter_mut()[0] = "s2".to_owned();
    assert_eq!(header.title(), &vec!["t", "t2"]);
    assert!(header.performer().is_empty());
    assert_eq!(header.songwriter(), &vec!["s2"]);
}

#[test]
fn errors_compare_by_kind_and_carry_their_line() {
    assert_eq!(ParseError::err_msg("a"), ParseError::err_msg("b"));
    assert_eq!(ParseError::syntax_error("TITLE", "why"), ParseError::err_msg("x"));
    assert_ne!(ParseError::err_msg("a"), ParseError::unexpected_token("a"));
    assert_ne!(
        ParseError::InvalidArgument(InvalidArgument::InvalidId),
        ParseError::InvalidArgument(InvalidArgument::InvalidTimestamp)
    );
    assert_eq!(ParseError::from(InvalidArgument::MissingArgument), ParseError::InvalidArgument(InvalidArgument::MissingArgument));
    assert_eq!(Error::new(ParseError::err_msg("a"), 1), Error::new(ParseError::err_msg("b"), 2));
    assert_ne!(Error::new(ParseError::err_msg("a"), 1), Error::new(ParseError::unexpected_token("a"), 1));
    let e = Error::new(ParseError::syntax_error("TITLE", "why"), 12);
    assert_eq!((e.pos(), *e.at()), (Some(12), Some(12)));
    assert_eq!(e.to_string(), "SyntaxError: TITLE: why at line 12");
    let e = Error::from_parse_error(ParseError::unexpected_token("x"));
    assert_eq!(e.pos(), None);
    assert_eq!(e.to_string(), "UnexpetedToken: x");
    let e = Error::from(ParseError::InvalidArgument(InvalidArgument::MissingArgument));
    assert_eq!(e.to_string(), "Missing arguments");
    assert_eq!(InvalidArgument::InvalidId.to_string(), "Invalid id");
    assert_eq!(InvalidArgument::InvalidTimestamp.to_string(), "Invalid timestamp");
    let io = std::io::Error::new(std::io::ErrorKind::Other, "boom");
    let e = Error::new(ParseError::IoError(io), 3);
    assert_eq!(e.to_string(), "IoError: boom at line 3");
    assert_eq!(e.kind().to_string(), "IoError: boom");
    assert_ne!(e, Error::new(ParseError::err_msg("boom"), 3));
}

#[test]
fn the_state_follows_files_and_tracks() {
    let mut sheet = Cuna::default();
    assert_eq!(sheet.state(), State::Global);
    for (line, state) in [("TITLE x", State::Global), ("FILE \"a\" WAVE", State::File),
        ("REM y", State::File), ("TRACK 01 AUDIO", State::Track), ("INDEX 01 00:00:00", State::Track),
        ("TRACK 02 AUDIO", State::Track), ("FILE \"b\" WAVE", State::File), ("", State::File),
        ("CATALOG 1234567890123", State::File), ("TRACK 03 AUDIO", State::Track)]
    {
        Command::new(line).unwrap().parse(&mut sheet).unwrap();
        assert_eq!(sheet.state(), state, "{}", line);
    }
    let before = sheet.clone();
    assert!(Command::new("INDEX 1 x").is_err());
    assert!(Command::new("PREGAP x").unwrap().parse(&mut sheet).is_err());
    assert_eq!(sheet, before);
    assert_eq!(sheet.state(), State::Track);
}
