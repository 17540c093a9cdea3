//! The cue sheet as a whole.

use vstd::prelude::*;
use vstd::string::*;
use crate::builder::Outcome;
use crate::builder::run;
use crate::builder::run_tolerant;
use crate::builder::step;
use crate::comment::Comment;
use crate::error::Error;
use crate::error::ErrorView;
use crate::header::Header;
use crate::header::HeaderView;
use crate::parser::Command;
use crate::parser::numbered;
use crate::parser::Parna;
use crate::parser::texts;
use crate::spec_trim_utf8_header;
use crate::text::spec_lines;
use crate::track::Track;
use crate::track::TrackInfo;
use crate::track::TrackInfoView;
use crate::track::TrackView;
use crate::trim_utf8_header;
use crate::views::lemma_deep_view_push;
use crate::views::lemma_deep_view_update;

verus! {

/// A cue sheet: the header, the files with their tracks, and the remarks.
#[derive(Debug, Clone, PartialEq, Eq, Hash)]
pub struct Cuna {
    /// What the sheet says of the disc as a whole.
    pub header: Header,
    /// The files, in the order of the sheet.
    pub files: Vec<TrackInfo>,
    /// The remarks, in the order of the sheet.
    pub comments: Comment,
}

/// A cue sheet with its texts as sequences of characters.
pub struct CunaView {
    pub header: HeaderView,
    pub files: Seq<TrackInfoView>,
    pub comments: Seq<Seq<char>>,
}

impl CunaView {
    /// The sheet that holds nothing.
    pub open spec fn empty() -> CunaView {
        CunaView { header: HeaderView::empty(), files: Seq::empty(), comments: Seq::empty() }
    }

    /// The header and every file are well formed.
    pub open spec fn wf(self) -> bool {
        &&& self.header.wf()
        &&& forall|i: int| 0 <= i < self.files.len() ==> (#[trigger] self.files[i]).wf()
    }

    /// The first file, if there is one.
    pub open spec fn first_file(self) -> Option<TrackInfoView> {
        if self.files.len() > 0 {
            Some(self.files[0])
        } else {
            None
        }
    }

    /// The last file, if there is one.
    pub open spec fn last_file(self) -> Option<TrackInfoView> {
        if self.files.len() > 0 {
            Some(self.files.last())
        } else {
            None
        }
    }

    /// The current track: the last track of the last file, if there is one.
    /// A file without tracks has no current track, whatever the files
    /// before it hold.
    pub open spec fn last_track(self) -> Option<TrackView> {
        match self.last_file() {
            Some(f) => f.last_track(),
            None => None,
        }
    }

    /// This sheet with `f` in the place of its last file.
    pub open spec fn with_last_file(self, f: TrackInfoView) -> CunaView
        recommends
            self.files.len() > 0,
    {
        CunaView { files: self.files.update(self.files.len() - 1, f), ..self }
    }

    /// This sheet with `t` in the place of its current track.
    pub open spec fn with_last_track(self, t: TrackView) -> CunaView
        recommends
            self.last_track() is Some,
    {
        let f = self.files.last();
        self.with_last_file(TrackInfoView { tracks: f.tracks.update(f.tracks.len() - 1, t), ..f })
    }

    /// The tracks of the first `n` files, in the order of the sheet.
    pub open spec fn tracks_of(self, n: int) -> Seq<TrackView>
        decreases n,
    {
        if n <= 0 || n > self.files.len() {
            Seq::empty()
        } else {
            self.tracks_of(n - 1) + self.files[n - 1].tracks
        }
    }

    /// All the tracks, in the order of the sheet.
    pub open spec fn tracks(self) -> Seq<TrackView> {
        self.tracks_of(self.files.len() as int)
    }
}

/// Putting the last file in its own place changes nothing.
pub proof fn lemma_with_last_file_same(sheet: CunaView)
    requires
        sheet.last_file() is Some,
    ensures
        sheet.with_last_file(sheet.last_file()->0) == sheet,
{
    assert(sheet.files.update(sheet.files.len() - 1, sheet.files.last()) =~= sheet.files);
}

/// Putting the current track in its own place changes nothing.
pub proof fn lemma_with_last_track_same(sheet: CunaView)
    requires
        sheet.last_track() is Some,
    ensures
        sheet.with_last_track(sheet.last_track()->0) == sheet,
{
    let f = sheet.files.last();
    assert(f.tracks.update(f.tracks.len() - 1, f.tracks.last()) =~= f.tracks);
    lemma_with_last_file_same(sheet);
}

/// What reading a text makes of an empty sheet, where the first line that
/// fails ends the reading.  Byte-order marks at the start of the text are no
/// part of its first line, and the error holds the number of the line that
/// failed, counted from 1.
pub open spec fn spec_new(text: Seq<char>) -> Outcome {
    let lines = numbered(spec_lines(spec_trim_utf8_header(text)));
    run(CunaView::empty(), lines, 0, lines.len() as int)
}

/// What reading a text makes of an empty sheet, where the lines that fail
/// are passed over.  Byte-order marks at the start of the text are no part
/// of its first line.
pub open spec fn spec_new_suc(text: Seq<char>) -> CunaView {
    run_tolerant(CunaView::empty(), spec_lines(spec_trim_utf8_header(text)), 0)
}

impl View for Cuna {
    type V = CunaView;

    open spec fn view(&self) -> CunaView {
        CunaView {
            header: self.header@,
            files: self.files.deep_view(),
            comments: self.comments@,
        }
    }
}

impl DeepView for Cuna {
    type V = CunaView;

    open spec fn deep_view(&self) -> CunaView {
        self@
    }
}

impl Cuna {
    /// See `CunaView::wf`.
    pub open spec fn wf(&self) -> bool {
        self@.wf()
    }

    /// Reads a text as a cue sheet.  Byte-order marks at its start are
    /// dropped.  The first line that fails stops the reading, and its error
    /// holds its number, counted from 1.
    pub fn new(s: &str) -> (r: Result<Self, Error>)
        ensures
            match spec_new(s@).error {
                None => r matches Ok(sheet) && sheet@ == spec_new(s@).sheet,
                Some(e) => r matches Err(x) && x@ == e,
            },
            r matches Ok(sheet) ==> sheet.wf(),
    {
        let mut sheet = Cuna::default();
        let mut parser = Parna::new(trim_utf8_header(s));
        match parser.parse(&mut sheet) {
            Ok(()) => Ok(sheet),
            Err(e) => Err(e),
        }
    }

    /// Reads a text as a cue sheet and passes over the lines that fail.
    /// Byte-order marks at the start of the text are dropped.
    pub fn new_suc(s: &str) -> (r: Self)
        ensures
            r@ == spec_new_suc(s@),
            r.wf(),
    {
        let mut sheet = Cuna::default();
        let mut parser = Parna::new(trim_utf8_header(s));
        parser.parse_suc(&mut sheet);
        assert(texts(numbered(spec_lines(spec_trim_utf8_header(s@)))) =~= spec_lines(
            spec_trim_utf8_header(s@),
        ));
        sheet
    }

    /// Reads one line as a directive and applies it.  A line that fails
    /// leaves the sheet as it is, and its error holds `at` as its line.
    pub fn parse_line(&mut self, at: usize, line: &str) -> (r: Result<(), Error>)
        ensures
            match step(old(self)@, line@) {
                Ok(v) => r is Ok && final(self)@ == v,
                Err(e) => r matches Err(x) && x@ == (ErrorView { kind: e, at: Some(at) })
                    && final(self)@ == old(self)@,
            },
            old(self).wf() ==> final(self).wf(),
    {
        let command = match Command::new(line) {
            Ok(c) => c,
            Err(e) => {
                return Err(Error::new(e, at));
            },
        };
        match command.parse(self) {
            Ok(()) => Ok(()),
            Err(e) => Err(Error::new(e, at)),
        }
    }

    /// The sheet made of the given parts.
    pub fn with_parts(header: Header, files: Vec<TrackInfo>, comments: Comment) -> (r: Self)
        ensures
            r@ == (CunaView { header: header@, files: files.deep_view(), comments: comments@ }),
    {
        Self { header, files, comments }
    }

    /// The header of the sheet.
    pub fn header(&self) -> (r: &Header)
        ensures
            r@ == self@.header,
    {
        &self.header
    }

    /// The titles of the disc.
    pub fn title(&self) -> (r: &Vec<String>)
        ensures
            r.deep_view() == self@.header.title,
    {
        self.header.title()
    }

    /// The performers of the disc.
    pub fn performer(&self) -> (r: &Vec<String>)
        ensures
            r.deep_view() == self@.header.performer,
    {
        self.header.performer()
    }

    /// The songwriters of the disc.
    pub fn songwriter(&self) -> (r: &Vec<String>)
        ensures
            r.deep_view() == self@.header.songwriter,
    {
        self.header.songwriter()
    }

    /// The catalog number of the disc.
    pub fn catalog(&self) -> (r: Option<u64>)
        ensures
            r == self@.header.catalog,
    {
        self.header.catalog()
    }

    /// The files of the sheet.
    pub fn files(&self) -> (r: &Vec<TrackInfo>)
        ensures
            r.deep_view() == self@.files,
    {
        &self.files
    }

    /// Replaces the files of the sheet and returns those it had.
    pub fn set_files(&mut self, files: Vec<TrackInfo>) -> (r: Vec<TrackInfo>)
        ensures
            r.deep_view() == old(self)@.files,
            final(self)@ == (CunaView { files: files.deep_view(), ..old(self)@ }),
    {
        let mut files = files;
        std::mem::swap(&mut self.files, &mut files);
        files
    }

    /// The remarks of the sheet.
    pub fn comments(&self) -> (r: &Comment)
        ensures
            r@ == self@.comments,
    {
        &self.comments
    }

    /// Appends a file.
    pub fn push_file(&mut self, track: TrackInfo)
        ensures
            final(self)@ == (CunaView { files: old(self)@.files.push(track@), ..old(self)@ }),
    {
        self.files.push(track);
        proof {
            lemma_deep_view_push(old(self).files, self.files, track);
        }
    }

    /// The first file of the sheet.
    pub fn first_file(&self) -> (r: Option<&TrackInfo>)
        ensures
            match self@.first_file() {
                Some(v) => r matches Some(f) && f@ == v,
                None => r is None,
            },
    {
        if self.files.len() == 0 {
            None
        } else {
            Some(&self.files[0])
        }
    }

    /// The first file of the sheet, to be changed in place.
    pub fn first_file_mut(&mut self) -> (r: Option<&mut TrackInfo>)
        ensures
            final(self).header == old(self).header,
            final(self).comments == old(self).comments,
            match r {
                Some(f) => {
                    &&& old(self).files@.len() > 0
                    &&& *f == old(self).files@[0]
                    &&& final(self).files@ == old(self).files@.update(0, *final(f))
                    &&& old(self)@.first_file() == Some(f@)
                    &&& final(self)@ == (CunaView {
                        files: old(self)@.files.update(0, final(f)@),
                        ..old(self)@
                    })
                },
                None => old(self).files@.len() == 0 && final(self)@ == old(self)@,
            },
    {
        let ghost before = *self;
        let ghost after = *final(self);
        let r = self.files.as_mut_slice().first_mut();
        proof {
            match &r {
                Some(f) => {
                    lemma_deep_view_update(before.files, after.files, 0, *final(*f));
                },
                None => {
                    assert(after@.files =~= before@.files);
                },
            }
        }
        r
    }

    /// The last file of the sheet.
    pub fn last_file(&self) -> (r: Option<&TrackInfo>)
        ensures
            match self@.last_file() {
                Some(v) => r matches Some(f) && f@ == v,
                None => r is None,
            },
    {
        let n = self.files.len();
        if n == 0 {
            None
        } else {
            Some(&self.files[n - 1])
        }
    }

    /// The last file of the sheet, to be changed in place.
    pub fn last_file_mut(&mut self) -> (r: Option<&mut TrackInfo>)
        ensures
            final(self).header == old(self).header,
            final(self).comments == old(self).comments,
            match r {
                Some(f) => {
                    &&& old(self).files@.len() > 0
                    &&& *f == old(self).files@.last()
                    &&& final(self).files@ == old(self).files@.update(
                        old(self).files@.len() - 1,
                        *final(f),
                    )
                    &&& old(self)@.last_file() == Some(f@)
                    &&& final(self)@ == old(self)@.with_last_file(final(f)@)
                },
                None => old(self)@.last_file() is None && final(self)@ == old(self)@,
            },
    {
        let ghost before = *self;
        let ghost after = *final(self);
        let r = self.files.as_mut_slice().last_mut();
        proof {
            match &r {
                Some(f) => {
                    lemma_deep_view_update(
                        before.files,
                        after.files,
                        before.files@.len() - 1,
                        *final(*f),
                    );
                },
                None => {
                    assert(after@.files =~= before@.files);
                },
            }
        }
        r
    }

    /// The current track: the last track of the last file.
    pub fn last_track(&self) -> (r: Option<&Track>)
        ensures
            match self@.last_track() {
                Some(v) => r matches Some(t) && t@ == v,
                None => r is None,
            },
    {
        match self.last_file() {
            Some(f) => f.last_track(),
            None => None,
        }
    }

    /// All the tracks of the sheet, file by file.
    pub fn tracks(&self) -> (r: Vec<&Track>)
        ensures
            r.deep_view() == self@.tracks(),
    {
        let mut r: Vec<&Track> = Vec::new();
        let mut i: usize = 0;
        while i < self.files.len()
            invariant
                i <= self.files@.len(),
                r.deep_view() == self@.tracks_of(i as int),
            decreases self.files@.len() - i,
        {
            let file = &self.files[i];
            let ghost start = r.deep_view();
            let mut j: usize = 0;
            while j < file.tracks.len()
                invariant
                    j <= file.tracks@.len(),
                    r.deep_view() == start + file@.tracks.take(j as int),
                decreases file.tracks@.len() - j,
            {
                let ghost before = r;
                let track = &file.tracks[j];
                r.push(track);
                proof {
                    lemma_deep_view_push(before, r, track);
                }
                j = j + 1;
            }
            i = i + 1;
        }
        r
    }

    /// The current track, to be changed in place.
    pub fn last_track_mut(&mut self) -> (r: Option<&mut Track>)
        ensures
            match r {
                Some(t) => {
                    &&& old(self)@.last_track() == Some(t@)
                    &&& final(self)@ == old(self)@.with_last_track(final(t)@)
                },
                None => old(self)@.last_track() is None && final(self)@ == old(self)@,
            },
    {
        let ghost before = *self;
        let ghost after = *final(self);
        match self.files.as_mut_slice().last_mut() {
            Some(f) => {
                let ghost file = *f;
                let ghost file_after = *final(f);
                let r = f.last_track_mut();
                proof {
                    let n = before.files@.len() as int;
                    let m = file.tracks@.len() as int;
                    lemma_deep_view_update(before.files, after.files, n - 1, file_after);
                    match &r {
                        Some(t) => {
                            let track_after = *final(*t);
                            lemma_deep_view_update(
                                file.tracks,
                                file_after.tracks,
                                m - 1,
                                track_after,
                            );
                        },
                        None => {
                            assert(after@.files =~= before@.files);
                        },
                    }
                }
                r
            },
            None => {
                proof {
                    assert(after@.files =~= before@.files);
                }
                None
            },
        }
    }
}

impl Default for Cuna {
    fn default() -> (r: Self)
        ensures
            r@ == CunaView::empty(),
    {
        let r = Cuna { header: Header::default(), files: Vec::new(), comments: Comment::default() };
        assert(r.files.deep_view() =~= Seq::<TrackInfoView>::empty());
        r
    }
}

impl std::str::FromStr for Cuna {
    type Err = Error;

    fn from_str(s: &str) -> (r: Result<Self, Error>)
        ensures
            match spec_new(s@).error {
                None => r matches Ok(sheet) && sheet@ == spec_new(s@).sheet,
                Some(e) => r matches Err(x) && x@ == e,
            },
    {
        Cuna::new(s)
    }
}

} // verus!
