//! What holds of every sheet and of every sequence of directives.

use vstd::prelude::*;
use crate::builder::apply;
use crate::builder::refusal;
use crate::builder::run;
use crate::builder::run_tolerant;
use crate::builder::State;
use crate::builder::step;
use crate::cuna::CunaView;
use crate::decimal::lemma_padded;
use crate::decimal::padded;
use crate::decimal::pow10;
use crate::error::ParseErrorView;
use crate::header::CATALOG_DIGITS;
use crate::header::CATALOG_LIMIT;
use crate::parser::CommandView;
use crate::parser::Keyword;
use crate::parser::quoted;
use crate::parser::spec_arguments;
use crate::parser::spec_command;
use crate::parser::spec_id;
use crate::parser::spec_value;
use crate::parser::texts;
use crate::text::CharClass;
use crate::text::is_space;
use crate::text::lemma_differ;
use crate::text::lemma_scan;
use crate::text::lemma_trimmed_after_space;
use crate::text::lemma_trimmed_ends;
use crate::text::lemma_trimmed_fixed;
use crate::text::lemma_trimmed_not_empty;
use crate::text::trimmed;
use crate::time::lemma_timestamp_round_trip;
use crate::time::lemma_timestamp_wf;
use crate::time::TimeStamp;
use crate::track::MAX_ID;
use crate::utils::lemma_number_bound;
use crate::utils::lemma_number_padded;
use crate::utils::lemma_number_two_digits;
use crate::utils::lemma_quote;
use crate::utils::lemma_quote_inner;
use crate::utils::lemma_quote_opt_bare;
use crate::utils::lemma_quote_opt_quoted;
use crate::utils::lemma_token;
use crate::utils::quote_free;
use crate::utils::spec_quote;
use crate::utils::spec_token;

verus! {

/// What a sequence of directives does to a sheet: each is applied to what
/// the one before it left, and the first that is refused ends it.
pub open spec fn apply_all(sheet: CunaView, cmds: Seq<CommandView>) -> Result<
    CunaView,
    ParseErrorView,
>
    decreases cmds.len(),
{
    if cmds.len() == 0 {
        Ok(sheet)
    } else {
        match apply_all(sheet, cmds.drop_last()) {
            Ok(s) => apply(s, cmds.last()),
            Err(e) => Err(e),
        }
    }
}

/// A directive that is accepted leaves a well-formed sheet well formed: no
/// id above 99 and no catalog number of more than 13 digits gets in.
pub proof fn lemma_apply_wf(sheet: CunaView, cmd: CommandView)
    requires
        sheet.wf(),
        cmd.wf(),
    ensures
        apply(sheet, cmd) matches Ok(s) ==> s.wf(),
{
    match apply(sheet, cmd) {
        Ok(s) => {
            match cmd {
                CommandView::Pregap(text) => {
                    lemma_timestamp_wf(text);
                },
                CommandView::Postgap(text) => {
                    lemma_timestamp_wf(text);
                },
                _ => {},
            }
            if sheet.files.len() > 0 {
                assert(sheet.files.last().wf());
            }
        },
        Err(_) => {},
    }
}

/// A directive that is accepted keeps the catalog number of a sheet that
/// has one.
pub proof fn lemma_apply_keeps_catalog(sheet: CunaView, cmd: CommandView)
    requires
        sheet.header.catalog is Some,
    ensures
        apply(sheet, cmd) matches Ok(s) ==> s.header.catalog == sheet.header.catalog,
{
}

/// Directives that are accepted keep the catalog number of a sheet that has
/// one.
pub proof fn lemma_apply_all_keeps_catalog(sheet: CunaView, cmds: Seq<CommandView>)
    requires
        sheet.header.catalog is Some,
    ensures
        apply_all(sheet, cmds) matches Ok(s) ==> s.header.catalog == sheet.header.catalog,
    decreases cmds.len(),
{
    if cmds.len() > 0 {
        lemma_apply_all_keeps_catalog(sheet, cmds.drop_last());
        match apply_all(sheet, cmds.drop_last()) {
            Ok(s) => lemma_apply_keeps_catalog(s, cmds.last()),
            Err(_) => {},
        }
    }
}

/// The catalog number is set at most once: after a `CATALOG` directive was
/// accepted, whatever directives were accepted since, another `CATALOG`
/// directive is refused, whatever the two numbers are.
pub proof fn lemma_catalog_once(
    sheet: CunaView,
    first: u64,
    between: Seq<CommandView>,
    second: u64,
)
    requires
        apply(sheet, CommandView::Catalog(first)) is Ok,
        apply_all(apply(sheet, CommandView::Catalog(first))->Ok_0, between) is Ok,
    ensures
        apply(
            apply_all(apply(sheet, CommandView::Catalog(first))->Ok_0, between)->Ok_0,
            CommandView::Catalog(second),
        ) == Err::<CunaView, ParseErrorView>(
            refusal(
                CommandView::Catalog(second),
                "multiple `CATALOG` commands is not allowed"@,
            ),
        ),
{
    lemma_apply_all_keeps_catalog(apply(sheet, CommandView::Catalog(first))->Ok_0, between);
}

/// Neither reading a line nor applying a directive fails with an I/O
/// error.
pub proof fn lemma_no_io_error(sheet: CunaView, line: Seq<char>, cmd: CommandView)
    ensures
        spec_command(line) matches Err(e) ==> !(e is IoError),
        apply(sheet, cmd) matches Err(e) ==> !(e is IoError),
        step(sheet, line) matches Err(e) ==> !(e is IoError),
{
}

/// Where no line fails, passing over the lines that fail makes the same
/// sheet as stopping at the first of them.
pub proof fn lemma_tolerant_agrees(sheet: CunaView, lines: Seq<(usize, Seq<char>)>, i: int)
    requires
        0 <= i <= lines.len(),
        run(sheet, lines, i, lines.len() as int).error is None,
    ensures
        run_tolerant(sheet, texts(lines), i) == run(sheet, lines, i, lines.len() as int).sheet,
    decreases lines.len() - i,
{
    if i < lines.len() {
        match step(sheet, lines[i].1) {
            Ok(s) => lemma_tolerant_agrees(s, lines, i + 1),
            Err(_) => {},
        }
    }
}

/// The builder is a state machine.  There is a current file but in the
/// state `Global`, and a current track in the state `Track` only.  A `FILE`
/// directive is accepted in every state and leads to `File`; a `TRACK`
/// directive is refused in `Global` and leads to `Track`; the directives
/// that speak of the current track are refused elsewhere than in `Track`;
/// and no other directive changes the state.
pub proof fn lemma_states(sheet: CunaView, cmd: CommandView)
    ensures
        sheet.last_file() is Some <==> sheet.state() != State::Global,
        sheet.last_track() is Some <==> sheet.state() == State::Track,
        cmd is File ==> apply(sheet, cmd) is Ok,
        cmd is Rem || cmd is Title || cmd is Performer || cmd is Songwriter || cmd is Cdtextfile
            || cmd is Empty ==> apply(sheet, cmd) is Ok,
        cmd is Track && sheet.state() == State::Global ==> apply(sheet, cmd) is Err,
        (cmd is Index || cmd is Pregap || cmd is Postgap || cmd is Isrc || cmd is Flags)
            && sheet.state() != State::Track ==> apply(sheet, cmd) is Err,
        apply(sheet, cmd) matches Ok(s) ==> s.state() == if cmd is File {
            State::File
        } else if cmd is Track {
            State::Track
        } else {
            sheet.state()
        },
{
}

/// The directive starts a file or a track, and with it a new scope.
pub open spec fn opens_scope(cmd: CommandView) -> bool {
    cmd is File || cmd is Track
}

/// The current track has an index point.
pub open spec fn indexed(sheet: CunaView) -> bool {
    sheet.last_track() matches Some(t) && t.index.len() > 0
}

/// A directive that is accepted and starts neither a file nor a track keeps
/// a current track that has an index point.
pub proof fn lemma_apply_keeps_indexed(sheet: CunaView, cmd: CommandView)
    requires
        indexed(sheet),
        !opens_scope(cmd),
    ensures
        apply(sheet, cmd) matches Ok(s) ==> indexed(s),
{
}

/// Directives that are accepted and start neither a file nor a track keep a
/// current track that has an index point.
pub proof fn lemma_apply_all_keeps_indexed(sheet: CunaView, cmds: Seq<CommandView>)
    requires
        indexed(sheet),
        forall|i: int| 0 <= i < cmds.len() ==> !opens_scope(#[trigger] cmds[i]),
    ensures
        apply_all(sheet, cmds) matches Ok(s) ==> indexed(s),
    decreases cmds.len(),
{
    if cmds.len() > 0 {
        lemma_apply_all_keeps_indexed(sheet, cmds.drop_last());
        match apply_all(sheet, cmds.drop_last()) {
            Ok(s) => lemma_apply_keeps_indexed(s, cmds.last()),
            Err(_) => {},
        }
    }
}

/// The pregap of a track comes before its index points: a `PREGAP`
/// directive for a track that has an index point is refused, because the
/// track has a pregap already or else because of the order.
pub proof fn lemma_pregap_after_index_refused(sheet: CunaView, text: Seq<char>)
    requires
        indexed(sheet),
    ensures
        apply(sheet, CommandView::Pregap(text)) == Err::<CunaView, ParseErrorView>(
            refusal(
                CommandView::Pregap(text),
                if sheet.last_track()->0.pregap is Some {
                    "Multiple `PREGAP` commands are not allowed in one `TRACK` scope"@
                } else {
                    "Command `PREGAP` should be before `INDEX`"@
                },
            ),
        ),
{
}

/// A `PREGAP` directive is accepted only for a track that has no index
/// point yet, so a track that has both got its pregap first.
pub proof fn lemma_pregap_accepted_before_index(sheet: CunaView, text: Seq<char>)
    requires
        apply(sheet, CommandView::Pregap(text)) is Ok,
    ensures
        sheet.last_track() matches Some(t) && t.index.len() == 0 && t.pregap is None,
{
}

/// Once an `INDEX` directive was accepted, a `PREGAP` directive is refused
/// for as long as the track is the current one: whatever directives were
/// accepted since, none of which started a file or a track.
pub proof fn lemma_pregap_before_index(
    sheet: CunaView,
    index: CommandView,
    between: Seq<CommandView>,
    text: Seq<char>,
)
    requires
        index is Index,
        apply(sheet, index) is Ok,
        forall|i: int| 0 <= i < between.len() ==> !opens_scope(#[trigger] between[i]),
        apply_all(apply(sheet, index)->Ok_0, between) is Ok,
    ensures
        apply(apply_all(apply(sheet, index)->Ok_0, between)->Ok_0, CommandView::Pregap(text))
            matches Err(ParseErrorView::SyntaxError(_)),
{
    let s1 = apply(sheet, index)->Ok_0;
    lemma_apply_all_keeps_indexed(s1, between);
    lemma_pregap_after_index_refused(apply_all(s1, between)->Ok_0, text);
}

/// The keywords in upper case hold no space, and each is read as itself.
pub proof fn lemma_keyword_names(k: Keyword)
    ensures
        k.name().len() > 0,
        forall|i: int| 0 <= i < k.name().len() ==> (#[trigger] k.name()[i]) != ' ' && !is_space(
            k.name()[i],
        ),
        Keyword::of(k.name()) == Some(k),
{
    reveal_strlit("REM");
    reveal_strlit("TITLE");
    reveal_strlit("PERFORMER");
    reveal_strlit("SONGWRITER");
    reveal_strlit("CATALOG");
    reveal_strlit("CDTEXTFILE");
    reveal_strlit("FILE");
    reveal_strlit("TRACK");
    reveal_strlit("INDEX");
    reveal_strlit("PREGAP");
    reveal_strlit("POSTGAP");
    reveal_strlit("ISRC");
    reveal_strlit("FLAGS");
    match k {
        Keyword::Cdtextfile => {
            lemma_differ(k.name(), Keyword::Songwriter.name(), 0);
        },
        Keyword::Track => {
            lemma_differ(k.name(), Keyword::Title.name(), 1);
        },
        Keyword::Index => {
            lemma_differ(k.name(), Keyword::Title.name(), 0);
            lemma_differ(k.name(), Keyword::Track.name(), 0);
        },
        Keyword::Postgap => {
            lemma_differ(k.name(), Keyword::Catalog.name(), 0);
        },
        Keyword::Isrc => {
            lemma_differ(k.name(), Keyword::File.name(), 0);
        },
        Keyword::Flags => {
            lemma_differ(k.name(), Keyword::Title.name(), 0);
            lemma_differ(k.name(), Keyword::Track.name(), 0);
            lemma_differ(k.name(), Keyword::Index.name(), 0);
        },
        _ => {},
    }
}

/// A line made of a keyword in upper case, a space and arguments that do
/// not end in white space is read as that keyword with those arguments.
pub proof fn lemma_command_of_text(k: Keyword, args: Seq<char>)
    requires
        args.len() > 0,
        !is_space(args.last()),
    ensures
        spec_command(k.name() + seq![' '] + args) == spec_arguments(k, args),
{
    let line = k.name() + seq![' '] + args;
    lemma_keyword_names(k);
    lemma_trimmed_fixed(line);
    lemma_token(k.name(), args);
}

/// A value that a line can hold outside quotes: it is not empty, does not
/// end in white space, and has no quote.
pub open spec fn bare(v: Seq<char>) -> bool {
    v.len() > 0 && !is_space(v.last()) && quote_free(v)
}

/// A text that is not empty and does not end in white space.
pub open spec fn closed(v: Seq<char>) -> bool {
    v.len() > 0 && !is_space(v.last())
}

impl CommandView {
    /// The directive can be read back from its line: ids are at most 99,
    /// the catalog number fits in 13 digits, a file's name has no quote and
    /// its format is trimmed and not empty, the texts that end a line do
    /// not end in white space, and the values that are written without
    /// quotes are bare.
    pub open spec fn printable(self) -> bool {
        match self {
            CommandView::Rem(v) => closed(v),
            CommandView::Catalog(n) => n < CATALOG_LIMIT,
            CommandView::File(name, format) => quote_free(name) && closed(format) && !is_space(
                format[0],
            ),
            CommandView::Track(id, format) => id <= MAX_ID && closed(format),
            CommandView::Index(id, t) => id <= MAX_ID && t.wf(),
            CommandView::Pregap(v) => bare(v),
            CommandView::Postgap(v) => bare(v),
            CommandView::Isrc(v) => bare(v),
            CommandView::Flags(v) => bare(v),
            _ => true,
        }
    }

    /// The values that this directive writes without quotes are bare.
    pub open spec fn plain(self) -> bool {
        match self {
            CommandView::Pregap(v) => bare(v),
            CommandView::Postgap(v) => bare(v),
            CommandView::Isrc(v) => bare(v),
            CommandView::Flags(v) => bare(v),
            _ => true,
        }
    }
}

proof fn lemma_value_quoted(v: Seq<char>)
    ensures
        spec_value(quoted(v)) == Ok::<Seq<char>, ParseErrorView>(v),
        closed(quoted(v)),
{
    lemma_quote_opt_quoted(v);
}

proof fn lemma_value_bare(v: Seq<char>)
    requires
        bare(v),
    ensures
        spec_value(v) == Ok::<Seq<char>, ParseErrorView>(v),
{
    lemma_quote_opt_bare(v);
}

proof fn lemma_id_padded(id: u8, rest: Seq<char>)
    requires
        id <= MAX_ID,
    ensures
        spec_token(padded(id as nat, 2) + seq![' '] + rest) == Some((rest, padded(id as nat, 2))),
        spec_id(padded(id as nat, 2)) == Ok::<u8, ParseErrorView>(id),
{
    let p = padded(id as nat, 2);
    assert(pow10(2) == 100) by {
        reveal_with_fuel(pow10, 3);
    }
    lemma_padded(id as nat, 2);
    assert forall|i: int| 0 <= i < p.len() implies #[trigger] p[i] != ' ' by {
        assert(crate::text::is_digit(p[i]));
    }
    lemma_token(p, rest);
    lemma_number_padded(id as nat, 2, Seq::<char>::empty());
}

proof fn lemma_read_back_quoted(k: Keyword, v: Seq<char>)
    ensures
        spec_command(k.name() + seq![' '] + quoted(v)) == spec_arguments(k, quoted(v)),
        spec_value(quoted(v)) == Ok::<Seq<char>, ParseErrorView>(v),
{
    lemma_value_quoted(v);
    lemma_command_of_text(k, quoted(v));
}

proof fn lemma_read_back_bare(k: Keyword, v: Seq<char>)
    requires
        bare(v),
    ensures
        spec_command(k.name() + seq![' '] + v) == spec_arguments(k, v),
        spec_value(v) == Ok::<Seq<char>, ParseErrorView>(v),
{
    lemma_value_bare(v);
    lemma_command_of_text(k, v);
}

proof fn lemma_read_back_catalog(n: u64)
    requires
        n < CATALOG_LIMIT,
    ensures
        spec_command(CommandView::Catalog(n).text()) == Ok::<CommandView, ParseErrorView>(
            CommandView::Catalog(n),
        ),
{
    let p = padded(n as nat, CATALOG_DIGITS as nat);
    assert(pow10(13) == CATALOG_LIMIT) by {
        reveal_with_fuel(pow10, 14);
    }
    lemma_padded(n as nat, 13);
    lemma_number_padded(n as nat, 13, Seq::<char>::empty());
    lemma_command_of_text(Keyword::Catalog, p);
}

proof fn lemma_read_back_file(name: Seq<char>, format: Seq<char>)
    requires
        CommandView::File(name, format).printable(),
    ensures
        spec_command(CommandView::File(name, format).text()) == Ok::<CommandView, ParseErrorView>(
            CommandView::File(name, format),
        ),
{
    let args = quoted(name) + seq![' '] + format;
    let rest = seq![' '] + format;
    assert(args =~= seq!['"'] + name + seq!['"'] + rest);
    lemma_quote(name, rest);
    lemma_trimmed_after_space(format);
    lemma_command_of_text(Keyword::File, args);
    assert(CommandView::File(name, format).text() =~= Keyword::File.name() + seq![' '] + args);
}

proof fn lemma_read_back_track(id: u8, format: Seq<char>)
    requires
        CommandView::Track(id, format).printable(),
    ensures
        spec_command(CommandView::Track(id, format).text()) == Ok::<CommandView, ParseErrorView>(
            CommandView::Track(id, format),
        ),
{
    let args = padded(id as nat, 2) + seq![' '] + format;
    lemma_id_padded(id, format);
    lemma_command_of_text(Keyword::Track, args);
    assert(CommandView::Track(id, format).text() =~= Keyword::Track.name() + seq![' '] + args);
}

proof fn lemma_timestamp_text_closed(t: TimeStamp)
    ensures
        closed(t.text()),
{
    lemma_padded(t.frame_part(), 2);
}

proof fn lemma_read_back_index(id: u8, t: TimeStamp)
    requires
        CommandView::Index(id, t).printable(),
    ensures
        spec_command(CommandView::Index(id, t).text()) == Ok::<CommandView, ParseErrorView>(
            CommandView::Index(id, t),
        ),
{
    let args = padded(id as nat, 2) + seq![' '] + t.text();
    lemma_id_padded(id, t.text());
    lemma_timestamp_round_trip(t);
    lemma_timestamp_text_closed(t);
    lemma_command_of_text(Keyword::Index, args);
    assert(CommandView::Index(id, t).text() =~= Keyword::Index.name() + seq![' '] + args);
}

/// Reading the line of a printable directive gives the directive back.
pub proof fn lemma_read_back(cmd: CommandView)
    requires
        cmd.printable(),
    ensures
        spec_command(cmd.text()) == Ok::<CommandView, ParseErrorView>(cmd),
{
    match cmd {
        CommandView::Empty => {
            lemma_trimmed_fixed(Seq::<char>::empty());
        },
        CommandView::Rem(v) => {
            lemma_command_of_text(Keyword::Rem, v);
        },
        CommandView::Title(v) => {
            lemma_read_back_quoted(Keyword::Title, v);
        },
        CommandView::Performer(v) => {
            lemma_read_back_quoted(Keyword::Performer, v);
        },
        CommandView::Songwriter(v) => {
            lemma_read_back_quoted(Keyword::Songwriter, v);
        },
        CommandView::Cdtextfile(v) => {
            lemma_read_back_quoted(Keyword::Cdtextfile, v);
        },
        CommandView::Catalog(n) => {
            lemma_read_back_catalog(n);
        },
        CommandView::File(name, format) => {
            lemma_read_back_file(name, format);
        },
        CommandView::Track(id, format) => {
            lemma_read_back_track(id, format);
        },
        CommandView::Index(id, t) => {
            lemma_read_back_index(id, t);
        },
        CommandView::Pregap(v) => {
            lemma_read_back_bare(Keyword::Pregap, v);
        },
        CommandView::Postgap(v) => {
            lemma_read_back_bare(Keyword::Postgap, v);
        },
        CommandView::Isrc(v) => {
            lemma_read_back_bare(Keyword::Isrc, v);
        },
        CommandView::Flags(v) => {
            lemma_read_back_bare(Keyword::Flags, v);
        },
    }
}

proof fn lemma_token_rest(s: Seq<char>)
    requires
        closed(s),
    ensures
        spec_token(s) matches Some((rest, _)) ==> closed(rest) && rest.last() == s.last(),
{
    lemma_scan(s, CharClass::Except(' '), 0);
}

/// A directive that was read from a line is printable, but for values that
/// the line held in quotes and that cannot stand without them.
pub proof fn lemma_read_is_printable(line: Seq<char>)
    requires
        spec_command(line) is Ok,
        spec_command(line)->Ok_0.plain(),
    ensures
        spec_command(line)->Ok_0.printable(),
{
    let s = trimmed(line);
    let cmd = spec_command(line)->Ok_0;
    lemma_trimmed_ends(line);
    if s.len() > 0 {
        lemma_token_rest(s);
        let content = spec_token(s).unwrap().0;
        match cmd {
            CommandView::Catalog(n) => {
                lemma_number_bound(CATALOG_DIGITS as nat, content);
                assert(pow10(13) == CATALOG_LIMIT) by {
                    reveal_with_fuel(pow10, 14);
                }
            },
            CommandView::File(name, format) => {
                lemma_quote_inner(content);
                let rest = spec_quote(content).unwrap().0;
                lemma_scan(content, CharClass::Except('"'), 1);
                lemma_trimmed_not_empty(rest, rest.len() - 1);
                lemma_trimmed_ends(rest);
            },
            CommandView::Track(id, format) => {
                lemma_token_rest(content);
                lemma_number_two_digits(spec_token(content).unwrap().1);
            },
            CommandView::Index(id, t) => {
                lemma_number_two_digits(spec_token(content).unwrap().1);
                lemma_timestamp_wf(spec_token(content).unwrap().0);
            },
            _ => {},
        }
    }
}

/// Reading a line, writing the directive and reading what was written
/// gives the same directive: the line that is written denotes what the
/// line that was read denotes.  This holds of every line that is accepted,
/// but for a `PREGAP`, `POSTGAP`, `ISRC` or `FLAGS` line whose value stands
/// in quotes and could not stand without them, such as an empty one or one
/// with a quote inside.
pub proof fn lemma_command_round_trip(line: Seq<char>)
    requires
        spec_command(line) is Ok,
        spec_command(line)->Ok_0.plain(),
    ensures
        spec_command(spec_command(line)->Ok_0.text()) == spec_command(line),
{
    lemma_read_is_printable(line);
    lemma_read_back(spec_command(line)->Ok_0);
}

} // verus!
