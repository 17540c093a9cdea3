//! The builder of a cue sheet: what a directive does to the sheet, which
//! directives are refused in which state, and what a sequence of lines makes
//! of an empty sheet.
//!
//! The state of the builder is read off the sheet: before the first `FILE`
//! there is no current file, and a file has no current track before its
//! first `TRACK`.

use vstd::prelude::*;
use vstd::string::*;
use crate::cuna::Cuna;
use crate::cuna::CunaView;
use crate::cuna::lemma_with_last_file_same;
use crate::cuna::lemma_with_last_track_same;
use crate::error::ErrorView;
use crate::error::InvalidArgument;
use crate::error::ParseError;
use crate::error::ParseErrorView;
use crate::error::syntax_message;
use crate::header::CATALOG_LIMIT;
use crate::header::HeaderView;
use crate::laws::lemma_apply_wf;
use crate::parser::Command;
use crate::parser::CommandView;
use crate::parser::spec_command;
use crate::text::spec_split;
use crate::text::split;
use crate::time::spec_timestamp;
use crate::time::TimeStamp;
use crate::track::Index;
use crate::track::MAX_ID;
use crate::track::Track;
use crate::track::TrackInfo;
use crate::track::TrackInfoView;
use crate::track::TrackView;

verus! {

/// Where in a sheet the builder stands.
#[derive(Debug, Clone, Copy, PartialEq, Eq, Structural, Hash)]
pub enum State {
    /// No file has begun.
    Global,
    /// A file has begun, and no track of it yet.
    File,
    /// A track of the last file has begun: it is the current track.
    Track,
}

impl CunaView {
    /// Where the builder stands after the directives that made this sheet.
    pub open spec fn state(self) -> State {
        if self.files.len() == 0 {
            State::Global
        } else if self.files.last().tracks.len() == 0 {
            State::File
        } else {
            State::Track
        }
    }
}

impl Cuna {
    /// Where the builder stands: whether a file has begun, and whether a
    /// track of the last file has.
    pub fn state(&self) -> (r: State)
        ensures
            r == self@.state(),
    {
        match self.last_file() {
            None => State::Global,
            Some(f) => if f.tracks.len() == 0 {
                State::File
            } else {
                State::Track
            },
        }
    }
}

/// The refusal of a directive for the given reason: a syntax error whose
/// message is the directive as a line, a colon, and the reason.
pub open spec fn refusal(cmd: CommandView, reason: Seq<char>) -> ParseErrorView {
    ParseErrorView::SyntaxError(syntax_message(cmd.text(), reason))
}

/// The error for an id above 99 and for a catalog number of more than 13
/// digits.
pub open spec fn invalid_id() -> ParseErrorView {
    ParseErrorView::InvalidArgument(InvalidArgument::InvalidId)
}

/// What a directive does to a sheet: the sheet that it leaves, or the error
/// with which it is refused.
///
/// - A remark joins the remarks.
/// - A title, a performer or a songwriter joins those of the current track,
///   or those of the disc where there is no current track.
/// - The catalog number is set once, and fits in 13 digits.
/// - The name of the CD-TEXT file is set, whether there was one or not.
/// - A file joins the files, without tracks.
/// - A track joins the tracks of the last file; its id is at most 99.
/// - An index point joins those of the current track, which has no postgap
///   yet; its id is at most 99.
/// - The pregap of the current track is set once, before any index point.
/// - The postgap and the recording code of the current track are set once.
/// - The flags of the current track are set once, to the pieces between
///   the spaces of the text.
pub open spec fn apply(sheet: CunaView, cmd: CommandView) -> Result<CunaView, ParseErrorView> {
    match cmd {
        CommandView::Empty => Ok(sheet),
        CommandView::Rem(s) => Ok(CunaView { comments: sheet.comments.push(s), ..sheet }),
        CommandView::Title(s) => match sheet.last_track() {
            Some(t) => Ok(sheet.with_last_track(TrackView { title: t.title.push(s), ..t })),
            None => Ok(
                CunaView {
                    header: HeaderView { title: sheet.header.title.push(s), ..sheet.header },
                    ..sheet
                },
            ),
        },
        CommandView::Performer(s) => match sheet.last_track() {
            Some(t) => Ok(
                sheet.with_last_track(TrackView { performer: t.performer.push(s), ..t }),
            ),
            None => Ok(
                CunaView {
                    header: HeaderView {
                        performer: sheet.header.performer.push(s),
                        ..sheet.header
                    },
                    ..sheet
                },
            ),
        },
        CommandView::Songwriter(s) => match sheet.last_track() {
            Some(t) => Ok(
                sheet.with_last_track(TrackView { songwriter: t.songwriter.push(s), ..t }),
            ),
            None => Ok(
                CunaView {
                    header: HeaderView {
                        songwriter: sheet.header.songwriter.push(s),
                        ..sheet.header
                    },
                    ..sheet
                },
            ),
        },
        CommandView::Catalog(n) => if sheet.header.catalog is Some {
            Err(refusal(cmd, "multiple `CATALOG` commands is not allowed"@))
        } else if n >= CATALOG_LIMIT {
            Err(invalid_id())
        } else {
            Ok(CunaView { header: HeaderView { catalog: Some(n), ..sheet.header }, ..sheet })
        },
        CommandView::Cdtextfile(s) => Ok(
            CunaView { header: HeaderView { cdtextfile: Some(s), ..sheet.header }, ..sheet },
        ),
        CommandView::File(name, format) => Ok(
            CunaView {
                files: sheet.files.push(TrackInfoView { name, format, tracks: Seq::empty() }),
                ..sheet
            },
        ),
        CommandView::Track(id, format) => match sheet.last_file() {
            None => Err(refusal(cmd, "no current file"@)),
            Some(f) => if id > MAX_ID {
                Err(invalid_id())
            } else {
                Ok(
                    sheet.with_last_file(
                        TrackInfoView { tracks: f.tracks.push(TrackView::empty(id, format)), ..f },
                    ),
                )
            },
        },
        CommandView::Index(id, begin_time) => match sheet.last_track() {
            None => Err(refusal(cmd, "no current track"@)),
            Some(t) => if t.postgap is Some {
                Err(refusal(cmd, "Command `INDEX` should be before `POSTGAP`"@))
            } else if id > MAX_ID {
                Err(invalid_id())
            } else {
                Ok(
                    sheet.with_last_track(
                        TrackView { index: t.index.push(Index { id, begin_time }), ..t },
                    ),
                )
            },
        },
        CommandView::Pregap(s) => match sheet.last_track() {
            None => Err(refusal(cmd, "no current track"@)),
            Some(t) => if t.pregap is Some {
                Err(
                    refusal(
                        cmd,
                        "Multiple `PREGAP` commands are not allowed in one `TRACK` scope"@,
                    ),
                )
            } else if t.index.len() > 0 {
                Err(refusal(cmd, "Command `PREGAP` should be before `INDEX`"@))
            } else {
                match spec_timestamp(s) {
                    Ok(time) => Ok(sheet.with_last_track(TrackView { pregap: Some(time), ..t })),
                    Err(e) => Err(ParseErrorView::InvalidArgument(e)),
                }
            },
        },
        CommandView::Postgap(s) => match sheet.last_track() {
            None => Err(refusal(cmd, "no current track"@)),
            Some(t) => if t.postgap is Some {
                Err(
                    refusal(
                        cmd,
                        "Multiple `POSTGAP` commands are not allowed in one `TRACK` scope"@,
                    ),
                )
            } else {
                match spec_timestamp(s) {
                    Ok(time) => Ok(sheet.with_last_track(TrackView { postgap: Some(time), ..t })),
                    Err(e) => Err(ParseErrorView::InvalidArgument(e)),
                }
            },
        },
        CommandView::Isrc(s) => match sheet.last_track() {
            None => Err(refusal(cmd, "no current track"@)),
            Some(t) => if t.isrc is Some {
                Err(
                    refusal(cmd, "Multiple `ISRC` commands are not allowed in one `TRACK` scope"@),
                )
            } else {
                Ok(sheet.with_last_track(TrackView { isrc: Some(s), ..t }))
            },
        },
        CommandView::Flags(s) => match sheet.last_track() {
            None => Err(refusal(cmd, "no current track"@)),
            Some(t) => if t.flags.len() > 0 {
                Err(
                    refusal(
                        cmd,
                        "Multiple `FLAGS` commands are not allowed in one `TRACK` scope"@,
                    ),
                )
            } else {
                Ok(sheet.with_last_track(TrackView { flags: spec_split(s), ..t }))
            },
        },
    }
}

impl<'a> Command<'a> {
    fn refuse(&self, reason: &str) -> (r: Result<(), ParseError>)
        ensures
            r matches Err(e) && e@ == refusal(self@, reason@),
    {
        let text = self.to_string();
        Err(ParseError::syntax_error(text.as_str(), reason))
    }

    /// Applies this directive to `sheet`.  A directive that is refused leaves
    /// the sheet as it is.
    pub fn parse(&self, sheet: &mut Cuna) -> (r: Result<(), ParseError>)
        ensures
            match apply(old(sheet)@, self@) {
                Ok(v) => r is Ok && final(sheet)@ == v,
                Err(e) => r matches Err(x) && x@ == e && final(sheet)@ == old(sheet)@,
            },
            old(sheet).wf() ==> final(sheet).wf(),
    {
        proof {
            match self {
                Command::Index(_, begin_time) => {
                    use_type_invariant(begin_time);
                },
                _ => {},
            }
            if sheet.wf() {
                lemma_apply_wf(sheet@, self@);
            }
            if sheet@.last_track() is Some {
                lemma_with_last_track_same(sheet@);
            }
            if sheet@.last_file() is Some {
                lemma_with_last_file_same(sheet@);
            }
        }
        match self {
            Command::Empty => Ok(()),
            Command::Rem(s) => {
                sheet.comments.push(String::from_str(s));
                Ok(())
            },
            Command::Title(s) => {
                match sheet.last_track_mut() {
                    Some(tk) => tk.push_title(String::from_str(s)),
                    None => sheet.header.push_title(String::from_str(s)),
                }
                Ok(())
            },
            Command::Performer(s) => {
                match sheet.last_track_mut() {
                    Some(tk) => tk.push_performer(String::from_str(s)),
                    None => sheet.header.push_performer(String::from_str(s)),
                }
                Ok(())
            },
            Command::Songwriter(s) => {
                match sheet.last_track_mut() {
                    Some(tk) => tk.push_songwriter(String::from_str(s)),
                    None => sheet.header.push_songwriter(String::from_str(s)),
                }
                Ok(())
            },
            Command::Catalog(n) => {
                if sheet.header.catalog.is_some() {
                    self.refuse("multiple `CATALOG` commands is not allowed")
                } else if *n >= CATALOG_LIMIT {
                    Err(ParseError::InvalidArgument(InvalidArgument::InvalidId))
                } else {
                    sheet.header.catalog = Some(*n);
                    Ok(())
                }
            },
            Command::Cdtextfile(s) => {
                sheet.header.set_cdtextfile(String::from_str(s));
                Ok(())
            },
            Command::File(name, format) => {
                sheet.push_file(TrackInfo::new(String::from_str(name), String::from_str(format)));
                Ok(())
            },
            Command::Track(id, format) => match sheet.last_file_mut() {
                Some(f) => {
                    if *id > MAX_ID {
                        Err(ParseError::InvalidArgument(InvalidArgument::InvalidId))
                    } else {
                        f.push_track(Track::new_unchecked(*id, String::from_str(format)));
                        Ok(())
                    }
                },
                None => self.refuse("no current file"),
            },
            Command::Index(id, begin_time) => match sheet.last_track_mut() {
                Some(tk) => {
                    if tk.postgap.is_some() {
                        self.refuse("Command `INDEX` should be before `POSTGAP`")
                    } else if *id > MAX_ID {
                        Err(ParseError::InvalidArgument(InvalidArgument::InvalidId))
                    } else {
                        tk.push_index(Index::new_unchecked(*id, *begin_time));
                        Ok(())
                    }
                },
                None => self.refuse("no current track"),
            },
            Command::Pregap(s) => match sheet.last_track_mut() {
                Some(tk) => {
                    if tk.pregap.is_some() {
                        self.refuse(
                            "Multiple `PREGAP` commands are not allowed in one `TRACK` scope",
                        )
                    } else if tk.index.len() > 0 {
                        self.refuse("Command `PREGAP` should be before `INDEX`")
                    } else {
                        match TimeStamp::from_str(s) {
                            Ok(time) => {
                                tk.set_pregep(time);
                                Ok(())
                            },
                            Err(e) => Err(ParseError::InvalidArgument(e)),
                        }
                    }
                },
                None => self.refuse("no current track"),
            },
            Command::Postgap(s) => match sheet.last_track_mut() {
                Some(tk) => {
                    if tk.postgap.is_some() {
                        self.refuse(
                            "Multiple `POSTGAP` commands are not allowed in one `TRACK` scope",
                        )
                    } else {
                        match TimeStamp::from_str(s) {
                            Ok(time) => {
                                tk.set_postgep(time);
                                Ok(())
                            },
                            Err(e) => Err(ParseError::InvalidArgument(e)),
                        }
                    }
                },
                None => self.refuse("no current track"),
            },
            Command::Isrc(s) => match sheet.last_track_mut() {
                Some(tk) => {
                    if tk.isrc.is_some() {
                        self.refuse("Multiple `ISRC` commands are not allowed in one `TRACK` scope")
                    } else {
                        tk.set_isrc(String::from_str(s));
                        Ok(())
                    }
                },
                None => self.refuse("no current track"),
            },
            Command::Flags(s) => match sheet.last_track_mut() {
                Some(tk) => {
                    if tk.flags.len() > 0 {
                        self.refuse(
                            "Multiple `FLAGS` commands are not allowed in one `TRACK` scope",
                        )
                    } else {
                        let flags = split(s);
                        tk.push_flags(flags);
                        Ok(())
                    }
                },
                None => self.refuse("no current track"),
            },
        }
    }
}

/// What one line does to a sheet: the line is read as a directive, and the
/// directive is applied.
pub open spec fn step(sheet: CunaView, line: Seq<char>) -> Result<CunaView, ParseErrorView> {
    match spec_command(line) {
        Ok(cmd) => apply(sheet, cmd),
        Err(e) => Err(e),
    }
}

/// Where a run over numbered lines ends: the sheet that it leaves, the
/// position of the line that comes next, and the error that stopped it, if
/// one did.
pub struct Outcome {
    pub sheet: CunaView,
    pub next: int,
    pub error: Option<ErrorView>,
}

/// Runs over the lines from position `i` up to position `end`, and stops
/// behind the first line that fails.  The error holds the number of that
/// line plus one, and the sheet is as the lines before it left it.
pub open spec fn run(sheet: CunaView, lines: Seq<(usize, Seq<char>)>, i: int, end: int) -> Outcome
    decreases end - i,
{
    if i < 0 || i >= end || i >= lines.len() {
        Outcome { sheet, next: i, error: None }
    } else {
        match step(sheet, lines[i].1) {
            Ok(s) => run(s, lines, i + 1, end),
            Err(e) => Outcome {
                sheet,
                next: i + 1,
                error: Some(ErrorView { kind: e, at: Some((lines[i].0 + 1) as usize) }),
            },
        }
    }
}

/// Runs over the lines from position `i` on and passes over each line that
/// fails.
pub open spec fn run_tolerant(sheet: CunaView, lines: Seq<Seq<char>>, i: int) -> CunaView
    decreases lines.len() - i,
{
    if i < 0 || i >= lines.len() {
        sheet
    } else {
        match step(sheet, lines[i]) {
            Ok(s) => run_tolerant(s, lines, i + 1),
            Err(_) => run_tolerant(sheet, lines, i + 1),
        }
    }
}

} // verus!
