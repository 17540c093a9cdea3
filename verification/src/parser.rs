//! The directives of a cue sheet: how a line is read as one, how one is
//! written back as a line, and what one does to the sheet.

use vstd::prelude::*;
use vstd::string::*;
use crate::builder::run;
use crate::builder::run_tolerant;
use crate::cuna::Cuna;
use crate::decimal::padded;
use crate::decimal::push_padded;
use crate::error::Error;
use crate::error::InvalidArgument;
use crate::error::ParseError;
use crate::error::ParseErrorView;
use crate::error::syntax_message;
use crate::header::CATALOG_DIGITS;
use crate::text::CharClass;
use crate::text::eq_ignore_ascii_case;
use crate::text::eq_ignore_case;
use crate::text::lines;
use crate::text::scan;
use crate::text::scan_from;
use crate::text::spec_lines;
use crate::text::trim;
use crate::text::trimmed;
use crate::time::spec_timestamp;
use crate::time::TimeStamp;
use crate::track::Index;
use crate::track::Track;
use crate::utils::lemma_number_two_digits;
use crate::utils::number;
use crate::utils::quote;
use crate::utils::quote_opt;
use crate::utils::spec_number;
use crate::utils::spec_quote;
use crate::utils::spec_quote_opt;
use crate::utils::spec_token;
use crate::utils::token;

verus! {

/// The keywords of the directives.
#[derive(Debug, Clone, Copy, PartialEq, Eq, Structural, Hash)]
pub enum Keyword {
    Rem,
    Title,
    Performer,
    Songwriter,
    Catalog,
    Cdtextfile,
    File,
    Track,
    Index,
    Pregap,
    Postgap,
    Isrc,
    Flags,
}

impl Keyword {
    /// The keyword in upper case.
    pub open spec fn name(self) -> Seq<char> {
        match self {
            Keyword::Rem => "REM"@,
            Keyword::Title => "TITLE"@,
            Keyword::Performer => "PERFORMER"@,
            Keyword::Songwriter => "SONGWRITER"@,
            Keyword::Catalog => "CATALOG"@,
            Keyword::Cdtextfile => "CDTEXTFILE"@,
            Keyword::File => "FILE"@,
            Keyword::Track => "TRACK"@,
            Keyword::Index => "INDEX"@,
            Keyword::Pregap => "PREGAP"@,
            Keyword::Postgap => "POSTGAP"@,
            Keyword::Isrc => "ISRC"@,
            Keyword::Flags => "FLAGS"@,
        }
    }

    /// The keyword that `word` spells, in any case of its letters.
    pub open spec fn of(word: Seq<char>) -> Option<Keyword> {
        if eq_ignore_case(word, Keyword::Rem.name()) {
            Some(Keyword::Rem)
        } else if eq_ignore_case(word, Keyword::Title.name()) {
            Some(Keyword::Title)
        } else if eq_ignore_case(word, Keyword::Performer.name()) {
            Some(Keyword::Performer)
        } else if eq_ignore_case(word, Keyword::Songwriter.name()) {
            Some(Keyword::Songwriter)
        } else if eq_ignore_case(word, Keyword::Catalog.name()) {
            Some(Keyword::Catalog)
        } else if eq_ignore_case(word, Keyword::Cdtextfile.name()) {
            Some(Keyword::Cdtextfile)
        } else if eq_ignore_case(word, Keyword::File.name()) {
            Some(Keyword::File)
        } else if eq_ignore_case(word, Keyword::Track.name()) {
            Some(Keyword::Track)
        } else if eq_ignore_case(word, Keyword::Index.name()) {
            Some(Keyword::Index)
        } else if eq_ignore_case(word, Keyword::Pregap.name()) {
            Some(Keyword::Pregap)
        } else if eq_ignore_case(word, Keyword::Postgap.name()) {
            Some(Keyword::Postgap)
        } else if eq_ignore_case(word, Keyword::Isrc.name()) {
            Some(Keyword::Isrc)
        } else if eq_ignore_case(word, Keyword::Flags.name()) {
            Some(Keyword::Flags)
        } else {
            None
        }
    }

    /// The keyword in upper case.
    pub fn as_str(&self) -> (r: &'static str)
        ensures
            r@ == self.name(),
    {
        match self {
            Keyword::Rem => "REM",
            Keyword::Title => "TITLE",
            Keyword::Performer => "PERFORMER",
            Keyword::Songwriter => "SONGWRITER",
            Keyword::Catalog => "CATALOG",
            Keyword::Cdtextfile => "CDTEXTFILE",
            Keyword::File => "FILE",
            Keyword::Track => "TRACK",
            Keyword::Index => "INDEX",
            Keyword::Pregap => "PREGAP",
            Keyword::Postgap => "POSTGAP",
            Keyword::Isrc => "ISRC",
            Keyword::Flags => "FLAGS",
        }
    }

    /// Finds the keyword that `word` spells, in any case of its letters.
    pub fn parse(word: &str) -> (r: Option<Keyword>)
        ensures
            r == Keyword::of(word@),
    {
        if eq_ignore_ascii_case(word, "REM") {
            Some(Keyword::Rem)
        } else if eq_ignore_ascii_case(word, "TITLE") {
            Some(Keyword::Title)
        } else if eq_ignore_ascii_case(word, "PERFORMER") {
            Some(Keyword::Performer)
        } else if eq_ignore_ascii_case(word, "SONGWRITER") {
            Some(Keyword::Songwriter)
        } else if eq_ignore_ascii_case(word, "CATALOG") {
            Some(Keyword::Catalog)
        } else if eq_ignore_ascii_case(word, "CDTEXTFILE") {
            Some(Keyword::Cdtextfile)
        } else if eq_ignore_ascii_case(word, "FILE") {
            Some(Keyword::File)
        } else if eq_ignore_ascii_case(word, "TRACK") {
            Some(Keyword::Track)
        } else if eq_ignore_ascii_case(word, "INDEX") {
            Some(Keyword::Index)
        } else if eq_ignore_ascii_case(word, "PREGAP") {
            Some(Keyword::Pregap)
        } else if eq_ignore_ascii_case(word, "POSTGAP") {
            Some(Keyword::Postgap)
        } else if eq_ignore_ascii_case(word, "ISRC") {
            Some(Keyword::Isrc)
        } else if eq_ignore_ascii_case(word, "FLAGS") {
            Some(Keyword::Flags)
        } else {
            None
        }
    }
}

/// One directive of a cue sheet.  Its texts are slices of the line it was
/// read from.
#[derive(Debug, Clone, PartialEq, Eq, Hash)]
pub enum Command<'a> {
    /// A remark.
    Rem(&'a str),
    /// A title, of the current track or of the disc.
    Title(&'a str),
    /// A performer, of the current track or of the disc.
    Performer(&'a str),
    /// A songwriter, of the current track or of the disc.
    Songwriter(&'a str),
    /// The catalog number of the disc.
    Catalog(u64),
    /// The name of the file that holds the CD-TEXT data.
    Cdtextfile(&'a str),
    /// A file: its name and its format.
    File(&'a str, &'a str),
    /// A track: its id and its format.
    Track(u8, &'a str),
    /// An index point of the current track: its id and its position.
    Index(u8, TimeStamp),
    /// The length of the silence before the current track, as a timestamp
    /// yet to be read.
    Pregap(&'a str),
    /// The length of the silence after the current track, as a timestamp
    /// yet to be read.
    Postgap(&'a str),
    /// The recording code of the current track.
    Isrc(&'a str),
    /// The flags of the current track, with single spaces between them.
    Flags(&'a str),
    /// An empty line.
    Empty,
}

/// A directive with its texts as sequences of characters.
pub enum CommandView {
    Rem(Seq<char>),
    Title(Seq<char>),
    Performer(Seq<char>),
    Songwriter(Seq<char>),
    Catalog(u64),
    Cdtextfile(Seq<char>),
    File(Seq<char>, Seq<char>),
    Track(u8, Seq<char>),
    Index(u8, TimeStamp),
    Pregap(Seq<char>),
    Postgap(Seq<char>),
    Isrc(Seq<char>),
    Flags(Seq<char>),
    Empty,
}

impl CommandView {
    /// The position of an index point is well formed.
    pub open spec fn wf(self) -> bool {
        self matches CommandView::Index(_, t) ==> t.wf()
    }
}

impl<'a> View for Command<'a> {
    type V = CommandView;

    open spec fn view(&self) -> CommandView {
        match self {
            Command::Rem(s) => CommandView::Rem(s@),
            Command::Title(s) => CommandView::Title(s@),
            Command::Performer(s) => CommandView::Performer(s@),
            Command::Songwriter(s) => CommandView::Songwriter(s@),
            Command::Catalog(n) => CommandView::Catalog(*n),
            Command::Cdtextfile(s) => CommandView::Cdtextfile(s@),
            Command::File(name, format) => CommandView::File(name@, format@),
            Command::Track(id, format) => CommandView::Track(*id, format@),
            Command::Index(id, t) => CommandView::Index(*id, *t),
            Command::Pregap(s) => CommandView::Pregap(s@),
            Command::Postgap(s) => CommandView::Postgap(s@),
            Command::Isrc(s) => CommandView::Isrc(s@),
            Command::Flags(s) => CommandView::Flags(s@),
            Command::Empty => CommandView::Empty,
        }
    }
}

/// The keyword of a line that is trimmed and not empty: the line up to its
/// first space, or all of it where it has no space.
pub open spec fn spec_keyword_of(s: Seq<char>) -> Seq<char> {
    s.take(scan(s, CharClass::Except(' '), 0))
}

/// An id as a directive writes it: exactly two digits.
pub open spec fn spec_id(s: Seq<char>) -> Result<u8, ParseErrorView> {
    match spec_number(2, s) {
        Some((rest, id)) => if rest.len() == 0 {
            Ok(id as u8)
        } else {
            Err(ParseErrorView::InvalidArgument(InvalidArgument::InvalidId))
        },
        None => Err(ParseErrorView::InvalidArgument(InvalidArgument::InvalidId)),
    }
}

/// A value that may stand in double quotes, or the error for a quote that
/// has no partner.
pub open spec fn spec_value(content: Seq<char>) -> Result<Seq<char>, ParseErrorView> {
    match spec_quote_opt(content) {
        Some(v) => Ok(v),
        None => Err(ParseErrorView::SyntaxError(syntax_message(content, "unmatched quote"@))),
    }
}

/// What the arguments `content` of the directive with keyword `k` denote.
pub open spec fn spec_arguments(k: Keyword, content: Seq<char>) -> Result<
    CommandView,
    ParseErrorView,
> {
    match k {
        Keyword::Rem => Ok(CommandView::Rem(content)),
        Keyword::Title => match spec_value(content) {
            Ok(v) => Ok(CommandView::Title(v)),
            Err(e) => Err(e),
        },
        Keyword::Performer => match spec_value(content) {
            Ok(v) => Ok(CommandView::Performer(v)),
            Err(e) => Err(e),
        },
        Keyword::Songwriter => match spec_value(content) {
            Ok(v) => Ok(CommandView::Songwriter(v)),
            Err(e) => Err(e),
        },
        Keyword::Catalog => match spec_number(CATALOG_DIGITS as nat, content) {
            Some((rest, n)) => if rest.len() == 0 {
                Ok(CommandView::Catalog(n))
            } else {
                Err(ParseErrorView::InvalidArgument(InvalidArgument::InvalidId))
            },
            None => Err(ParseErrorView::InvalidArgument(InvalidArgument::InvalidId)),
        },
        Keyword::Cdtextfile => match spec_value(content) {
            Ok(v) => Ok(CommandView::Cdtextfile(v)),
            Err(e) => Err(e),
        },
        Keyword::File => match spec_quote(content) {
            Some((rest, name)) => if rest.len() > 0 {
                Ok(CommandView::File(name, trimmed(rest)))
            } else {
                Err(ParseErrorView::InvalidArgument(InvalidArgument::MissingArgument))
            },
            None => Err(ParseErrorView::InvalidArgument(InvalidArgument::MissingArgument)),
        },
        Keyword::Track => match spec_token(content) {
            Some((format, id)) => match spec_id(id) {
                Ok(id) => Ok(CommandView::Track(id, format)),
                Err(e) => Err(e),
            },
            None => Err(ParseErrorView::InvalidArgument(InvalidArgument::MissingArgument)),
        },
        Keyword::Index => match spec_token(content) {
            Some((time, id)) => match spec_id(id) {
                Ok(id) => match spec_timestamp(time) {
                    Ok(t) => Ok(CommandView::Index(id, t)),
                    Err(e) => Err(ParseErrorView::InvalidArgument(e)),
                },
                Err(e) => Err(e),
            },
            None => Err(ParseErrorView::InvalidArgument(InvalidArgument::MissingArgument)),
        },
        Keyword::Pregap => match spec_value(content) {
            Ok(v) => Ok(CommandView::Pregap(v)),
            Err(e) => Err(e),
        },
        Keyword::Postgap => match spec_value(content) {
            Ok(v) => Ok(CommandView::Postgap(v)),
            Err(e) => Err(e),
        },
        Keyword::Isrc => match spec_value(content) {
            Ok(v) => Ok(CommandView::Isrc(v)),
            Err(e) => Err(e),
        },
        Keyword::Flags => match spec_value(content) {
            Ok(v) => Ok(CommandView::Flags(v)),
            Err(e) => Err(e),
        },
    }
}

/// The directive that a line denotes.
///
/// The line is trimmed; an empty line is the empty directive.  The keyword
/// is the line up to its first space, in any case of its letters: a word
/// that is no keyword is an unexpected token, and a keyword with no space
/// behind it misses its arguments.  What follows the first space is read as
/// the keyword's arguments.
pub open spec fn spec_command(line: Seq<char>) -> Result<CommandView, ParseErrorView> {
    let s = trimmed(line);
    if s.len() == 0 {
        Ok(CommandView::Empty)
    } else {
        match Keyword::of(spec_keyword_of(s)) {
            None => Err(ParseErrorView::UnexpectedToken(spec_keyword_of(s))),
            Some(k) => match spec_token(s) {
                None => Err(ParseErrorView::InvalidArgument(InvalidArgument::MissingArgument)),
                Some((content, _)) => spec_arguments(k, content),
            },
        }
    }
}

fn parse_id(s: &str) -> (r: Result<u8, ParseError>)
    ensures
        match spec_id(s@) {
            Ok(id) => r == Ok::<u8, ParseError>(id),
            Err(e) => r matches Err(x) && x@ == e,
        },
{
    proof {
        lemma_number_two_digits(s@);
    }
    match number(2, s) {
        Some((rest, id)) => if rest.unicode_len() == 0 {
            Ok(id as u8)
        } else {
            Err(ParseError::InvalidArgument(InvalidArgument::InvalidId))
        },
        None => Err(ParseError::InvalidArgument(InvalidArgument::InvalidId)),
    }
}

fn value<'a>(content: &'a str) -> (r: Result<&'a str, ParseError>)
    ensures
        match spec_value(content@) {
            Ok(v) => r matches Ok(x) && x@ == v,
            Err(e) => r matches Err(x) && x@ == e,
        },
{
    match quote_opt(content) {
        Some(v) => Ok(v),
        None => Err(ParseError::syntax_error(content, "unmatched quote")),
    }
}

impl<'a> Command<'a> {
    fn with_arguments(k: Keyword, content: &'a str) -> (r: Result<Self, ParseError>)
        ensures
            match spec_arguments(k, content@) {
                Ok(c) => r matches Ok(x) && x@ == c,
                Err(e) => r matches Err(x) && x@ == e,
            },
    {
        match k {
            Keyword::Rem => Ok(Command::Rem(content)),
            Keyword::Title => match value(content) {
                Ok(v) => Ok(Command::Title(v)),
                Err(e) => Err(e),
            },
            Keyword::Performer => match value(content) {
                Ok(v) => Ok(Command::Performer(v)),
                Err(e) => Err(e),
            },
            Keyword::Songwriter => match value(content) {
                Ok(v) => Ok(Command::Songwriter(v)),
                Err(e) => Err(e),
            },
            Keyword::Catalog => match number(CATALOG_DIGITS, content) {
                Some((rest, n)) => if rest.unicode_len() == 0 {
                    Ok(Command::Catalog(n))
                } else {
                    Err(ParseError::InvalidArgument(InvalidArgument::InvalidId))
                },
                None => Err(ParseError::InvalidArgument(InvalidArgument::InvalidId)),
            },
            Keyword::Cdtextfile => match value(content) {
                Ok(v) => Ok(Command::Cdtextfile(v)),
                Err(e) => Err(e),
            },
            Keyword::File => match quote(content) {
                Some((rest, name)) => if rest.unicode_len() > 0 {
                    Ok(Command::File(name, trim(rest)))
                } else {
                    Err(ParseError::InvalidArgument(InvalidArgument::MissingArgument))
                },
                None => Err(ParseError::InvalidArgument(InvalidArgument::MissingArgument)),
            },
            Keyword::Track => match token(content) {
                Some((format, id)) => match parse_id(id) {
                    Ok(id) => Ok(Command::Track(id, format)),
                    Err(e) => Err(e),
                },
                None => Err(ParseError::InvalidArgument(InvalidArgument::MissingArgument)),
            },
            Keyword::Index => match token(content) {
                Some((time, id)) => match parse_id(id) {
                    Ok(id) => match TimeStamp::from_str(time) {
                        Ok(t) => Ok(Command::Index(id, t)),
                        Err(e) => Err(ParseError::InvalidArgument(e)),
                    },
                    Err(e) => Err(e),
                },
                None => Err(ParseError::InvalidArgument(InvalidArgument::MissingArgument)),
            },
            Keyword::Pregap => match value(content) {
                Ok(v) => Ok(Command::Pregap(v)),
                Err(e) => Err(e),
            },
            Keyword::Postgap => match value(content) {
                Ok(v) => Ok(Command::Postgap(v)),
                Err(e) => Err(e),
            },
            Keyword::Isrc => match value(content) {
                Ok(v) => Ok(Command::Isrc(v)),
                Err(e) => Err(e),
            },
            Keyword::Flags => match value(content) {
                Ok(v) => Ok(Command::Flags(v)),
                Err(e) => Err(e),
            },
        }
    }

    /// Reads one line as a directive.
    pub fn new(s: &'a str) -> (r: Result<Self, ParseError>)
        ensures
            match spec_command(s@) {
                Ok(c) => r matches Ok(x) && x@ == c,
                Err(e) => r matches Err(x) && x@ == e,
            },
    {
        let s = trim(s);
        let len = s.unicode_len();
        if len == 0 {
            return Ok(Command::Empty);
        }
        let i = scan_from(s, len, 0, CharClass::Except(' '));
        let word = s.substring_char(0, i);
        let k = match Keyword::parse(word) {
            Some(k) => k,
            None => {
                return Err(ParseError::unexpected_token(word));
            },
        };
        match token(s) {
            Some((content, _)) => Self::with_arguments(k, content),
            None => Err(ParseError::InvalidArgument(InvalidArgument::MissingArgument)),
        }
    }
}

/// A text between double quotes.
pub open spec fn quoted(s: Seq<char>) -> Seq<char> {
    seq!['"'] + s + seq!['"']
}

impl CommandView {
    /// The line that writes this directive: the keyword in upper case, one
    /// space, and the arguments.  Titles, performers, songwriters and file
    /// names stand in double quotes, ids in two digits, and the catalog
    /// number in 13 digits.  The empty directive is the empty line.
    pub open spec fn text(self) -> Seq<char> {
        match self {
            CommandView::Rem(c) => Keyword::Rem.name() + seq![' '] + c,
            CommandView::Title(c) => Keyword::Title.name() + seq![' '] + quoted(c),
            CommandView::Performer(c) => Keyword::Performer.name() + seq![' '] + quoted(c),
            CommandView::Songwriter(c) => Keyword::Songwriter.name() + seq![' '] + quoted(c),
            CommandView::Catalog(n) => Keyword::Catalog.name() + seq![' '] + padded(
                n as nat,
                CATALOG_DIGITS as nat,
            ),
            CommandView::Cdtextfile(c) => Keyword::Cdtextfile.name() + seq![' '] + quoted(c),
            CommandView::File(name, format) => Keyword::File.name() + seq![' '] + quoted(name)
                + seq![' '] + format,
            CommandView::Track(id, format) => Keyword::Track.name() + seq![' '] + padded(
                id as nat,
                2,
            ) + seq![' '] + format,
            CommandView::Index(id, t) => Keyword::Index.name() + seq![' '] + padded(id as nat, 2)
                + seq![' '] + t.text(),
            CommandView::Pregap(c) => Keyword::Pregap.name() + seq![' '] + c,
            CommandView::Postgap(c) => Keyword::Postgap.name() + seq![' '] + c,
            CommandView::Isrc(c) => Keyword::Isrc.name() + seq![' '] + c,
            CommandView::Flags(c) => Keyword::Flags.name() + seq![' '] + c,
            CommandView::Empty => Seq::empty(),
        }
    }
}

fn start(k: Keyword) -> (r: String)
    ensures
        r@ == k.name() + seq![' '],
{
    proof {
        reveal_strlit(" ");
    }
    let mut r = String::from_str(k.as_str());
    r.append(" ");
    r
}

fn push_quoted(out: &mut String, s: &str)
    ensures
        final(out)@ == old(out)@ + quoted(s@),
{
    proof {
        reveal_strlit("\"");
    }
    out.append("\"");
    out.append(s);
    out.append("\"");
}

fn push_space(out: &mut String)
    ensures
        final(out)@ == old(out)@ + seq![' '],
{
    proof {
        reveal_strlit(" ");
    }
    out.append(" ");
}

impl<'a> Command<'a> {
    /// Writes this directive as a line.
    pub fn to_string(&self) -> (r: String)
        ensures
            r@ == self@.text(),
    {
        match self {
            Command::Rem(c) => {
                let mut r = start(Keyword::Rem);
                r.append(c);
                r
            },
            Command::Title(c) => {
                let mut r = start(Keyword::Title);
                push_quoted(&mut r, c);
                r
            },
            Command::Performer(c) => {
                let mut r = start(Keyword::Performer);
                push_quoted(&mut r, c);
                r
            },
            Command::Songwriter(c) => {
                let mut r = start(Keyword::Songwriter);
                push_quoted(&mut r, c);
                r
            },
            Command::Catalog(n) => {
                let mut r = start(Keyword::Catalog);
                push_padded(&mut r, *n, CATALOG_DIGITS);
                r
            },
            Command::Cdtextfile(c) => {
                let mut r = start(Keyword::Cdtextfile);
                push_quoted(&mut r, c);
                r
            },
            Command::File(name, format) => {
                let mut r = start(Keyword::File);
                push_quoted(&mut r, name);
                push_space(&mut r);
                r.append(format);
                r
            },
            Command::Track(id, format) => {
                let mut r = start(Keyword::Track);
                push_padded(&mut r, *id as u64, 2);
                push_space(&mut r);
                r.append(format);
                r
            },
            Command::Index(id, t) => {
                let mut r = start(Keyword::Index);
                push_padded(&mut r, *id as u64, 2);
                push_space(&mut r);
                t.push_to(&mut r);
                r
            },
            Command::Pregap(c) => {
                let mut r = start(Keyword::Pregap);
                r.append(c);
                r
            },
            Command::Postgap(c) => {
                let mut r = start(Keyword::Postgap);
                r.append(c);
                r
            },
            Command::Isrc(c) => {
                let mut r = start(Keyword::Isrc);
                r.append(c);
                r
            },
            Command::Flags(c) => {
                let mut r = start(Keyword::Flags);
                r.append(c);
                r
            },
            Command::Empty => String::new(),
        }
    }
}

/// Lines with their positions as their numbers.
pub open spec fn numbered(lines: Seq<Seq<char>>) -> Seq<(usize, Seq<char>)> {
    Seq::new(lines.len(), |i: int| (i as usize, lines[i]))
}

/// A parser over the numbered lines of a text.  It reads nothing until it
/// is asked to, and writes what it reads to the sheet that it is handed.
#[derive(Debug)]
pub struct Parna<'a> {
    lines: Vec<(usize, &'a str)>,
    next: usize,
}

/// The parser of a text.
pub type Parser<'a> = Parna<'a>;

fn number_lines<'a>(lines: Vec<&'a str>) -> (r: Vec<(usize, &'a str)>)
    ensures
        r.deep_view() == numbered(lines.deep_view()),
        forall|i: int| 0 <= i < r@.len() ==> (#[trigger] r@[i]).0 < usize::MAX,
{
    let mut r: Vec<(usize, &'a str)> = Vec::new();
    let mut i: usize = 0;
    while i < lines.len()
        invariant
            i <= lines@.len(),
            r@.len() == i,
            forall|k: int| 0 <= k < i ==> (#[trigger] r@[k]) == (k as usize, lines@[k]),
        decreases lines@.len() - i,
    {
        r.push((i, lines[i]));
        i = i + 1;
    }
    r
}

impl<'a> Parna<'a> {
    #[verifier::type_invariant]
    spec fn inv(self) -> bool {
        &&& self.next <= self.lines@.len()
        &&& forall|i: int| 0 <= i < self.lines@.len() ==> (#[trigger] self.lines@[i]).0 < usize::MAX
    }

    /// All the lines of this parser with their numbers, those that it has
    /// read included.
    pub closed spec fn all_lines(&self) -> Seq<(usize, Seq<char>)> {
        self.lines.deep_view()
    }

    /// Position among `all_lines` of the line that this parser reads next.
    pub closed spec fn position(&self) -> int {
        self.next as int
    }

    /// The line that this parser reads next, with its number.
    pub open spec fn spec_current(&self) -> Option<(usize, Seq<char>)> {
        if 0 <= self.position() < self.all_lines().len() {
            Some(self.all_lines()[self.position()])
        } else {
            None
        }
    }

    /// A parser over the lines of `s`, numbered from 0.
    pub fn new(s: &'a str) -> (r: Self)
        ensures
            r.all_lines() == numbered(spec_lines(s@)),
            r.position() == 0,
    {
        Self::from_lines(lines(s))
    }

    /// A parser over the given lines, numbered from 0.
    pub fn from_lines(lines: Vec<&'a str>) -> (r: Self)
        ensures
            r.all_lines() == numbered(lines.deep_view()),
            r.position() == 0,
    {
        Self { lines: number_lines(lines), next: 0 }
    }

    /// Replaces the lines of this parser by the given ones, numbered from 0.
    pub fn set_lines(&mut self, lines: Vec<&'a str>)
        ensures
            final(self).all_lines() == numbered(lines.deep_view()),
            final(self).position() == 0,
    {
        *self = Self::from_lines(lines);
    }

    /// A parser over lines that come with their numbers.  A number stands
    /// for the line before which that many lines come, and is below the
    /// largest `usize`.
    pub fn with_iter(it: Vec<(usize, &'a str)>) -> (r: Self)
        requires
            forall|i: int| 0 <= i < it@.len() ==> (#[trigger] it@[i]).0 < usize::MAX,
        ensures
            r.all_lines() == it.deep_view(),
            r.position() == 0,
    {
        Self { lines: it, next: 0 }
    }

    /// The lines that this parser has not read yet, with their numbers.
    pub fn data(&self) -> (r: &[(usize, &'a str)])
        ensures
            r.deep_view() == self.all_lines().skip(self.position()),
    {
        proof {
            use_type_invariant(self);
        }
        vstd::slice::slice_subrange(self.lines.as_slice(), self.next, self.lines.len())
    }

    /// The line that this parser reads next.
    pub fn current_line(&self) -> (r: Option<&'a str>)
        ensures
            match self.spec_current() {
                Some((_, line)) => r matches Some(x) && x@ == line,
                None => r is None,
            },
    {
        match self.current() {
            Some((_, line)) => Some(line),
            None => None,
        }
    }

    /// The line that this parser reads next, with its number.
    pub fn current(&self) -> (r: Option<(usize, &'a str)>)
        ensures
            match self.spec_current() {
                Some((at, line)) => r matches Some((x, y)) && x == at && y@ == line,
                None => r is None,
            },
    {
        proof {
            use_type_invariant(self);
        }
        if self.next < self.lines.len() {
            Some(self.lines[self.next])
        } else {
            None
        }
    }

    /// Reads one line and applies it to `state`.
    pub fn parse_next_line(&mut self, state: &mut Cuna) -> (r: Result<(), Error>)
        ensures
            final(self).all_lines() == old(self).all_lines(),
            ({
                let o = run(
                    old(state)@,
                    old(self).all_lines(),
                    old(self).position(),
                    old(self).position() + 1,
                );
                &&& final(state)@ == o.sheet
                &&& final(self).position() == o.next
                &&& match o.error {
                    None => r is Ok,
                    Some(e) => r matches Err(x) && x@ == e,
                }
            }),
            old(state).wf() ==> final(state).wf(),
    {
        self.parse_next_n_lines(1, state)
    }

    /// Reads up to `n` lines and applies each to `state`, until one fails.
    /// The line that fails is read as well, so that the next call goes on
    /// behind it.
    pub fn parse_next_n_lines(&mut self, n: usize, state: &mut Cuna) -> (r: Result<(), Error>)
        ensures
            final(self).all_lines() == old(self).all_lines(),
            ({
                let o = run(
                    old(state)@,
                    old(self).all_lines(),
                    old(self).position(),
                    old(self).position() + n,
                );
                &&& final(state)@ == o.sheet
                &&& final(self).position() == o.next
                &&& match o.error {
                    None => r is Ok,
                    Some(e) => r matches Err(x) && x@ == e,
                }
            }),
            old(state).wf() ==> final(state).wf(),
    {
        proof {
            use_type_invariant(&*self);
        }
        let ghost all = self.all_lines();
        let ghost end = self.position() + n;
        let ghost goal = run(state@, all, self.position(), end);
        let mut k: usize = 0;
        while k < n && self.next < self.lines.len()
            invariant
                self.inv(),
                self.all_lines() == all,
                all == old(self).all_lines(),
                end == old(self).position() + n,
                goal == run(old(state)@, all, old(self).position(), end),
                old(state).wf() ==> state.wf(),
                k <= n,
                self.next + (n - k) == end,
                run(state@, all, self.next as int, end) == goal,
            decreases n - k,
        {
            let (at, line) = self.lines[self.next];
            self.next = self.next + 1;
            k = k + 1;
            match state.parse_line(at + 1, line) {
                Ok(()) => {},
                Err(e) => {
                    return Err(e);
                },
            }
        }
        Ok(())
    }

    /// Reads all the lines that are left and applies each to `state`, until
    /// one fails.  The line that fails is read as well.
    pub fn parse(&mut self, state: &mut Cuna) -> (r: Result<(), Error>)
        ensures
            final(self).all_lines() == old(self).all_lines(),
            ({
                let o = run(
                    old(state)@,
                    old(self).all_lines(),
                    old(self).position(),
                    old(self).all_lines().len() as int,
                );
                &&& final(state)@ == o.sheet
                &&& final(self).position() == o.next
                &&& match o.error {
                    None => r is Ok,
                    Some(e) => r matches Err(x) && x@ == e,
                }
            }),
            old(state).wf() ==> final(state).wf(),
    {
        proof {
            use_type_invariant(&*self);
        }
        let left = self.lines.len() - self.next;
        self.parse_next_n_lines(left, state)
    }

    /// Reads all the lines that are left and applies each to `state`,
    /// passing over those that fail.
    pub fn parse_suc(&mut self, state: &mut Cuna)
        ensures
            final(self).all_lines() == old(self).all_lines(),
            final(self).position() == old(self).all_lines().len(),
            final(state)@ == run_tolerant(
                old(state)@,
                texts(old(self).all_lines()),
                old(self).position(),
            ),
            old(state).wf() ==> final(state).wf(),
    {
        proof {
            use_type_invariant(&*self);
        }
        let ghost all = self.all_lines();
        let ghost goal = run_tolerant(state@, texts(all), self.position());
        while self.next < self.lines.len()
            invariant
                self.inv(),
                self.all_lines() == all,
                all == old(self).all_lines(),
                goal == run_tolerant(old(state)@, texts(all), old(self).position()),
                old(state).wf() ==> state.wf(),
                run_tolerant(state@, texts(all), self.next as int) == goal,
            decreases self.lines@.len() - self.next,
        {
            let (at, line) = self.lines[self.next];
            self.next = self.next + 1;
            let _ = state.parse_line(at + 1, line);
        }
    }
}

/// Numbered lines without their numbers.
pub open spec fn texts(lines: Seq<(usize, Seq<char>)>) -> Seq<Seq<char>> {
    Seq::new(lines.len(), |i: int| lines[i].1)
}

} // verus!
