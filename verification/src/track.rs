//! The tracks of a cue sheet: index points, tracks, and the files that hold
//! them.

use vstd::prelude::*;
use vstd::string::*;
use crate::error::InvalidArgument;
use crate::time::spec_timestamp;
use crate::time::TimeStamp;
use crate::utils::keyword;
use crate::utils::lemma_number_two_digits;
use crate::utils::number;
use crate::utils::spec_keyword;
use crate::utils::spec_number;
use crate::utils::spec_strip_char;
use crate::utils::strip_char;
use crate::views::lemma_deep_view_add;
use crate::views::lemma_deep_view_push;
use crate::views::lemma_deep_view_update;

pub use self::TrackInfo as File;

verus! {

/// Largest id of a track or of an index point.
pub const MAX_ID: u8 = 99;

/// An index point of a track: its id and where it begins.
#[derive(Debug, Clone, Copy, PartialEq, Eq, Structural, Hash)]
pub struct Index {
    /// Id of the index point; index 1 is the start of the track.
    pub id: u8,
    /// Position at which the index point begins.
    pub begin_time: TimeStamp,
}

/// An index point as a line `INDEX <id> <timestamp>` writes it: the keyword
/// in any case, one space, two digits, one space, and a timestamp.
pub open spec fn spec_index(s: Seq<char>) -> Option<Index> {
    match spec_keyword("INDEX"@, s) {
        Some((r0, _)) => match spec_number(2, r0) {
            Some((r1, id)) => match spec_strip_char(' ', r1) {
                Some(r2) => match spec_timestamp(r2) {
                    Ok(begin_time) => Some(Index { id: id as u8, begin_time }),
                    Err(_) => None,
                },
                None => None,
            },
            None => None,
        },
        None => None,
    }
}

impl Index {
    /// The id is at most 99 and the position is well formed.
    pub open spec fn wf(self) -> bool {
        self.id <= MAX_ID && self.begin_time.wf()
    }

    pub(crate) fn new_unchecked(id: u8, begin_time: TimeStamp) -> (r: Self)
        ensures
            r == (Index { id, begin_time }),
    {
        Self { id, begin_time }
    }

    /// The index point with the given id, which is at most 99.
    pub fn new(id: u8, begin_time: TimeStamp) -> (r: Self)
        requires
            id <= MAX_ID,
        ensures
            r == (Index { id, begin_time }),
            r.wf(),
    {
        proof {
            use_type_invariant(&begin_time);
        }
        Self::new_unchecked(id, begin_time)
    }

    /// The index point with the given id, or `None` where the id is above
    /// 99.
    pub fn new_opt(id: u8, begin_time: TimeStamp) -> (r: Option<Self>)
        ensures
            r == if id <= MAX_ID {
                Some(Index { id, begin_time })
            } else {
                None
            },
            r matches Some(x) ==> x.wf(),
    {
        proof {
            use_type_invariant(&begin_time);
        }
        if id <= MAX_ID {
            Some(Self::new_unchecked(id, begin_time))
        } else {
            None
        }
    }

    /// The id of this index point.
    pub fn id(&self) -> (r: u8)
        ensures
            r == self.id,
    {
        self.id
    }

    /// Where this index point begins.
    pub fn begin_time(&self) -> (r: &TimeStamp)
        ensures
            *r == self.begin_time,
    {
        &self.begin_time
    }

    /// Reads a line `INDEX <id> <timestamp>`.  Whatever is wrong with the
    /// line, the error is `InvalidId`.
    pub fn from_str(s: &str) -> (r: Result<Self, InvalidArgument>)
        ensures
            r == match spec_index(s@) {
                Some(x) => Ok::<Index, InvalidArgument>(x),
                None => Err(InvalidArgument::InvalidId),
            },
            r matches Ok(x) ==> x.wf(),
    {
        let (r0, _) = match keyword("INDEX", s) {
            Some(x) => x,
            None => {
                return Err(InvalidArgument::InvalidId);
            },
        };
        let (r1, id) = match number(2, r0) {
            Some(x) => x,
            None => {
                return Err(InvalidArgument::InvalidId);
            },
        };
        let r2 = match strip_char(' ', r1) {
            Some(x) => x,
            None => {
                return Err(InvalidArgument::InvalidId);
            },
        };
        proof {
            lemma_number_two_digits(r0@);
        }
        match TimeStamp::from_str(r2) {
            Ok(begin_time) => Ok(Self::new_unchecked(id as u8, begin_time)),
            Err(_) => Err(InvalidArgument::InvalidId),
        }
    }
}

impl std::str::FromStr for Index {
    type Err = InvalidArgument;

    fn from_str(s: &str) -> (r: Result<Self, InvalidArgument>)
        ensures
            r == match spec_index(s@) {
                Some(x) => Ok::<Index, InvalidArgument>(x),
                None => Err(InvalidArgument::InvalidId),
            },
    {
        Index::from_str(s)
    }
}

impl Default for Index {
    fn default() -> (r: Self)
        ensures
            r == (Index { id: 0, begin_time: TimeStamp::of(0, 0) }),
    {
        Index { id: 0, begin_time: TimeStamp::default() }
    }
}

/// One track of a file.
#[derive(Debug, Clone, PartialEq, Eq, Hash)]
pub struct Track {
    /// Id of the track, from 1 to 99.  The constructors hold it to that; a
    /// `TRACK` line is held to at most 99 only.
    pub id: u8,
    /// Format of the track, such as `AUDIO`.
    pub format: String,
    /// Index points, in the order of the sheet.
    pub index: Vec<Index>,
    /// Length of the silence before the track.
    pub pregap: Option<TimeStamp>,
    /// Length of the silence after the track.
    pub postgap: Option<TimeStamp>,
    /// Titles, in the order of the sheet.
    pub title: Vec<String>,
    /// Performers, in the order of the sheet.
    pub performer: Vec<String>,
    /// Songwriters, in the order of the sheet.
    pub songwriter: Vec<String>,
    /// International Standard Recording Code.
    pub isrc: Option<String>,
    /// Flags, in the order of the sheet.
    pub flags: Vec<String>,
}

/// A track with its texts as sequences of characters.
pub struct TrackView {
    pub id: u8,
    pub format: Seq<char>,
    pub index: Seq<Index>,
    pub pregap: Option<TimeStamp>,
    pub postgap: Option<TimeStamp>,
    pub title: Seq<Seq<char>>,
    pub performer: Seq<Seq<char>>,
    pub songwriter: Seq<Seq<char>>,
    pub isrc: Option<Seq<char>>,
    pub flags: Seq<Seq<char>>,
}

impl TrackView {
    /// The track of the given id and format that holds nothing else.
    pub open spec fn empty(id: u8, format: Seq<char>) -> TrackView {
        TrackView {
            id,
            format,
            index: Seq::empty(),
            pregap: None,
            postgap: None,
            title: Seq::empty(),
            performer: Seq::empty(),
            songwriter: Seq::empty(),
            isrc: None,
            flags: Seq::empty(),
        }
    }

    /// The ids of the track and of its index points are at most 99, and its
    /// positions are well formed.
    pub open spec fn wf(self) -> bool {
        &&& self.id <= MAX_ID
        &&& forall|i: int| 0 <= i < self.index.len() ==> (#[trigger] self.index[i]).wf()
        &&& self.pregap matches Some(t) ==> t.wf()
        &&& self.postgap matches Some(t) ==> t.wf()
    }

    /// The first index point with the given id, if there is one.
    pub open spec fn get_index(self, id: u8) -> Option<Index> {
        let i = first_index_with_id(self.index, id, 0);
        if i < self.index.len() {
            Some(self.index[i])
        } else {
            None
        }
    }
}

/// Position from `i` on of the first index point with the given id, or the
/// length of `s` where there is none.
pub open spec fn first_index_with_id(s: Seq<Index>, id: u8, i: int) -> int
    decreases s.len() - i,
{
    if 0 <= i < s.len() && s[i].id != id {
        first_index_with_id(s, id, i + 1)
    } else {
        i
    }
}

impl View for Track {
    type V = TrackView;

    open spec fn view(&self) -> TrackView {
        TrackView {
            id: self.id,
            format: self.format@,
            index: self.index@,
            pregap: self.pregap,
            postgap: self.postgap,
            title: self.title.deep_view(),
            performer: self.performer.deep_view(),
            songwriter: self.songwriter.deep_view(),
            isrc: self.isrc.deep_view(),
            flags: self.flags.deep_view(),
        }
    }
}

impl DeepView for Track {
    type V = TrackView;

    open spec fn deep_view(&self) -> TrackView {
        self@
    }
}

/// A track as a line `TRACK <id> <format>` writes it: the keyword in any
/// case, one space, two digits, one space, and the format, which is the rest
/// of the line.
pub open spec fn spec_track(s: Seq<char>) -> Option<TrackView> {
    match spec_keyword("TRACK"@, s) {
        Some((r0, _)) => match spec_number(2, r0) {
            Some((r1, id)) => match spec_strip_char(' ', r1) {
                Some(r2) => Some(TrackView::empty(id as u8, r2)),
                None => None,
            },
            None => None,
        },
        None => None,
    }
}

impl Track {
    /// See `TrackView::wf`.
    pub open spec fn wf(&self) -> bool {
        self@.wf()
    }

    pub(crate) fn new_unchecked(id: u8, format: String) -> (r: Self)
        ensures
            r@ == TrackView::empty(id, format@),
    {
        let r = Self {
            id,
            format,
            index: Vec::new(),
            pregap: None,
            postgap: None,
            title: Vec::new(),
            performer: Vec::new(),
            songwriter: Vec::new(),
            isrc: None,
            flags: Vec::new(),
        };
        assert(r@ =~= TrackView::empty(id, format@)) by {
            assert(r.flags.deep_view() =~= Seq::<Seq<char>>::empty());
        }
        r
    }

    /// A track of the given id, which is from 1 to 99, and format, with
    /// nothing else in it.  This is a stricter check than that of a `TRACK`
    /// line, whose id may be 0.
    pub fn new(id: u8, format: String) -> (r: Self)
        requires
            1 <= id <= MAX_ID,
        ensures
            r@ == TrackView::empty(id, format@),
            r.wf(),
    {
        Self::new_unchecked(id, format)
    }

    /// A track of the given id and format with nothing else in it, or `None`
    /// where the id is 0 or above 99.  This is a stricter check than that of
    /// a `TRACK` line, whose id may be 0.
    pub fn new_opt(id: u8, format: String) -> (r: Option<Self>)
        ensures
            match r {
                Some(t) => 1 <= id <= MAX_ID && t@ == TrackView::empty(id, format@) && t.wf(),
                None => id == 0 || id > MAX_ID,
            },
    {
        if 1 <= id && id <= MAX_ID {
            Some(Self::new_unchecked(id, format))
        } else {
            None
        }
    }

    /// The id of this track.
    pub fn id(&self) -> (r: u8)
        ensures
            r == self@.id,
    {
        self.id
    }

    /// The format of this track.
    pub fn format(&self) -> (r: &str)
        ensures
            r@ == self@.format,
    {
        self.format.as_str()
    }

    /// The index points of this track.
    pub fn index(&self) -> (r: &Vec<Index>)
        ensures
            r@ == self@.index,
    {
        &self.index
    }

    /// The first index point with the given id.
    pub fn get_index(&self, id: u8) -> (r: Option<&Index>)
        ensures
            match self@.get_index(id) {
                Some(x) => r matches Some(y) && *y == x,
                None => r is None,
            },
    {
        let mut i: usize = 0;
        while i < self.index.len()
            invariant
                i <= self.index@.len(),
                first_index_with_id(self.index@, id, 0) == first_index_with_id(
                    self.index@,
                    id,
                    i as int,
                ),
            decreases self.index@.len() - i,
        {
            if self.index[i].id == id {
                return Some(&self.index[i]);
            }
            i = i + 1;
        }
        None
    }

    /// Appends an index point.
    pub fn push_index(&mut self, index: Index)
        ensures
            final(self)@ == (TrackView { index: old(self)@.index.push(index), ..old(self)@ }),
    {
        self.index.push(index)
    }

    /// The length of the silence before this track.
    pub fn pregap(&self) -> (r: Option<&TimeStamp>)
        ensures
            match self@.pregap {
                Some(t) => r matches Some(x) && *x == t,
                None => r is None,
            },
    {
        self.pregap.as_ref()
    }

    /// The length of the silence after this track.
    pub fn postgap(&self) -> (r: Option<&TimeStamp>)
        ensures
            match self@.postgap {
                Some(t) => r matches Some(x) && *x == t,
                None => r is None,
            },
    {
        self.postgap.as_ref()
    }

    /// The titles of this track.
    pub fn title(&self) -> (r: &Vec<String>)
        ensures
            r.deep_view() == self@.title,
    {
        &self.title
    }

    /// Appends a title.
    pub fn push_title(&mut self, title: String)
        ensures
            final(self)@ == (TrackView { title: old(self)@.title.push(title@), ..old(self)@ }),
    {
        self.title.push(title);
        proof {
            lemma_deep_view_push(old(self).title, self.title, title);
        }
    }

    /// The performers of this track.
    pub fn performer(&self) -> (r: &Vec<String>)
        ensures
            r.deep_view() == self@.performer,
    {
        &self.performer
    }

    /// Appends a performer.
    pub fn push_performer(&mut self, performer: String)
        ensures
            final(self)@ == (TrackView {
                performer: old(self)@.performer.push(performer@),
                ..old(self)@
            }),
    {
        self.performer.push(performer);
        proof {
            lemma_deep_view_push(old(self).performer, self.performer, performer);
        }
    }

    /// The songwriters of this track.
    pub fn songwriter(&self) -> (r: &Vec<String>)
        ensures
            r.deep_view() == self@.songwriter,
    {
        &self.songwriter
    }

    /// Appends a songwriter.
    pub fn push_songwriter(&mut self, songwriter: String)
        ensures
            final(self)@ == (TrackView {
                songwriter: old(self)@.songwriter.push(songwriter@),
                ..old(self)@
            }),
    {
        self.songwriter.push(songwriter);
        proof {
            lemma_deep_view_push(old(self).songwriter, self.songwriter, songwriter);
        }
    }

    /// Sets the length of the silence before this track and returns the one
    /// it had.
    pub fn set_pregep(&mut self, pregap: TimeStamp) -> (r: Option<TimeStamp>)
        ensures
            r == old(self)@.pregap,
            final(self)@ == (TrackView { pregap: Some(pregap), ..old(self)@ }),
    {
        let before = self.pregap;
        self.pregap = Some(pregap);
        before
    }

    /// Sets the length of the silence after this track and returns the one
    /// it had.
    pub fn set_postgep(&mut self, postgap: TimeStamp) -> (r: Option<TimeStamp>)
        ensures
            r == old(self)@.postgap,
            final(self)@ == (TrackView { postgap: Some(postgap), ..old(self)@ }),
    {
        let before = self.postgap;
        self.postgap = Some(postgap);
        before
    }

    /// The recording code of this track.
    pub fn isrc(&self) -> (r: Option<&str>)
        ensures
            match self@.isrc {
                Some(t) => r matches Some(x) && x@ == t,
                None => r is None,
            },
    {
        match &self.isrc {
            Some(s) => Some(s.as_str()),
            None => None,
        }
    }

    /// Sets the recording code of this track and returns the one it had.
    pub fn set_isrc(&mut self, isrc: String) -> (r: Option<String>)
        ensures
            r.deep_view() == old(self)@.isrc,
            final(self)@ == (TrackView { isrc: Some(isrc@), ..old(self)@ }),
    {
        let before = self.isrc.take();
        self.isrc = Some(isrc);
        before
    }

    /// The flags of this track.
    pub fn flags(&self) -> (r: &Vec<String>)
        ensures
            r.deep_view() == self@.flags,
    {
        &self.flags
    }

    /// Appends a flag.
    pub fn push_flag(&mut self, flag: String)
        ensures
            final(self)@ == (TrackView { flags: old(self)@.flags.push(flag@), ..old(self)@ }),
    {
        self.flags.push(flag);
        proof {
            lemma_deep_view_push(old(self).flags, self.flags, flag);
        }
    }

    /// Appends flags, in their order.
    pub fn push_flags(&mut self, flags: Vec<String>)
        ensures
            final(self)@ == (TrackView {
                flags: old(self)@.flags + flags.deep_view(),
                ..old(self)@
            }),
    {
        let mut flags = flags;
        let ghost given = flags;
        self.flags.append(&mut flags);
        proof {
            lemma_deep_view_add(old(self).flags, self.flags, given);
        }
    }

    /// Reads a line `TRACK <id> <format>`.  Whatever is wrong with the line,
    /// the error is `InvalidId`.
    pub fn from_str(s: &str) -> (r: Result<Self, InvalidArgument>)
        ensures
            match spec_track(s@) {
                Some(v) => r matches Ok(t) && t@ == v && t.wf(),
                None => r == Err::<Track, InvalidArgument>(InvalidArgument::InvalidId),
            },
    {
        let (r0, _) = match keyword("TRACK", s) {
            Some(x) => x,
            None => {
                return Err(InvalidArgument::InvalidId);
            },
        };
        let (r1, id) = match number(2, r0) {
            Some(x) => x,
            None => {
                return Err(InvalidArgument::InvalidId);
            },
        };
        let r2 = match strip_char(' ', r1) {
            Some(x) => x,
            None => {
                return Err(InvalidArgument::InvalidId);
            },
        };
        proof {
            lemma_number_two_digits(r0@);
        }
        Ok(Self::new_unchecked(id as u8, r2.to_owned()))
    }
}

impl std::str::FromStr for Track {
    type Err = InvalidArgument;

    fn from_str(s: &str) -> (r: Result<Self, InvalidArgument>)
        ensures
            match spec_track(s@) {
                Some(v) => r matches Ok(t) && t@ == v && t.wf(),
                None => r == Err::<Track, InvalidArgument>(InvalidArgument::InvalidId),
            },
    {
        Track::from_str(s)
    }
}

impl Default for Track {
    fn default() -> (r: Self)
        ensures
            r@ == TrackView::empty(0, Seq::empty()),
    {
        Track::new_unchecked(0, String::new())
    }
}

/// A file of the sheet and the tracks in it.
#[derive(Debug, Clone, PartialEq, Eq, Hash)]
pub struct TrackInfo {
    /// Name of the file.
    pub name: String,
    /// Format of the file, such as `WAVE`.
    pub format: String,
    /// Tracks, in the order of the sheet.
    pub tracks: Vec<Track>,
}

/// A file with its texts as sequences of characters.
pub struct TrackInfoView {
    pub name: Seq<char>,
    pub format: Seq<char>,
    pub tracks: Seq<TrackView>,
}

impl TrackInfoView {
    /// Every track is well formed.
    pub open spec fn wf(self) -> bool {
        forall|i: int| 0 <= i < self.tracks.len() ==> (#[trigger] self.tracks[i]).wf()
    }

    /// The first track with the given id, if there is one.
    pub open spec fn get_track(self, id: u8) -> Option<TrackView> {
        let i = first_track_with_id(self.tracks, id, 0);
        if i < self.tracks.len() {
            Some(self.tracks[i])
        } else {
            None
        }
    }

    /// The last track, if there is one.
    pub open spec fn last_track(self) -> Option<TrackView> {
        if self.tracks.len() > 0 {
            Some(self.tracks.last())
        } else {
            None
        }
    }
}

/// Position from `i` on of the first track with the given id, or the length
/// of `s` where there is none.
pub open spec fn first_track_with_id(s: Seq<TrackView>, id: u8, i: int) -> int
    decreases s.len() - i,
{
    if 0 <= i < s.len() && s[i].id != id {
        first_track_with_id(s, id, i + 1)
    } else {
        i
    }
}

impl View for TrackInfo {
    type V = TrackInfoView;

    open spec fn view(&self) -> TrackInfoView {
        TrackInfoView {
            name: self.name@,
            format: self.format@,
            tracks: self.tracks.deep_view(),
        }
    }
}

impl DeepView for TrackInfo {
    type V = TrackInfoView;

    open spec fn deep_view(&self) -> TrackInfoView {
        self@
    }
}

impl TrackInfo {
    /// See `TrackInfoView::wf`.
    pub open spec fn wf(&self) -> bool {
        self@.wf()
    }

    /// A file of the given name and format without tracks.
    pub fn new(name: String, format: String) -> (r: Self)
        ensures
            r@ == (TrackInfoView { name: name@, format: format@, tracks: Seq::empty() }),
    {
        let tracks: Vec<Track> = Vec::new();
        assert(tracks.deep_view() =~= Seq::<TrackView>::empty());
        Self::with_tracks(name, format, tracks)
    }

    /// A file of the given name and format with the given tracks.
    pub fn with_tracks(name: String, format: String, tracks: Vec<Track>) -> (r: Self)
        ensures
            r@ == (TrackInfoView { name: name@, format: format@, tracks: tracks.deep_view() }),
    {
        Self { name, format, tracks }
    }

    /// The tracks of this file.
    pub fn tracks(&self) -> (r: &Vec<Track>)
        ensures
            r.deep_view() == self@.tracks,
    {
        &self.tracks
    }

    /// The first track with the given id.
    pub fn get_track(&self, id: u8) -> (r: Option<&Track>)
        ensures
            match self@.get_track(id) {
                Some(v) => r matches Some(t) && t@ == v,
                None => r is None,
            },
    {
        let mut i: usize = 0;
        while i < self.tracks.len()
            invariant
                i <= self.tracks@.len(),
                first_track_with_id(self@.tracks, id, 0) == first_track_with_id(
                    self@.tracks,
                    id,
                    i as int,
                ),
            decreases self.tracks@.len() - i,
        {
            if self.tracks[i].id == id {
                return Some(&self.tracks[i]);
            }
            i = i + 1;
        }
        None
    }

    /// The last track of this file.
    pub fn last_track(&self) -> (r: Option<&Track>)
        ensures
            match self@.last_track() {
                Some(v) => r matches Some(t) && t@ == v,
                None => r is None,
            },
    {
        let n = self.tracks.len();
        if n == 0 {
            None
        } else {
            Some(&self.tracks[n - 1])
        }
    }

    /// The last track of this file, to be changed in place.
    pub fn last_track_mut(&mut self) -> (r: Option<&mut Track>)
        ensures
            final(self).name == old(self).name,
            final(self).format == old(self).format,
            match r {
                Some(t) => {
                    &&& old(self).tracks@.len() > 0
                    &&& *t == old(self).tracks@.last()
                    &&& final(self).tracks@ == old(self).tracks@.update(
                        old(self).tracks@.len() - 1,
                        *final(t),
                    )
                    &&& old(self)@.last_track() == Some(t@)
                    &&& final(self)@ == (TrackInfoView {
                        tracks: old(self)@.tracks.update(
                            old(self)@.tracks.len() - 1,
                            final(t)@,
                        ),
                        ..old(self)@
                    })
                },
                None => old(self)@.last_track() is None && final(self)@ == old(self)@,
            },
    {
        let ghost before = *self;
        let ghost after = *final(self);
        let r = self.tracks.as_mut_slice().last_mut();
        proof {
            match &r {
                Some(t) => {
                    lemma_deep_view_update(
                        before.tracks,
                        after.tracks,
                        before.tracks@.len() - 1,
                        *final(*t),
                    );
                },
                None => {
                    assert(after@.tracks =~= before@.tracks);
                },
            }
        }
        r
    }

    /// Appends a track.
    pub fn push_track(&mut self, track: Track)
        ensures
            final(self)@ == (TrackInfoView {
                tracks: old(self)@.tracks.push(track@),
                ..old(self)@
            }),
    {
        self.tracks.push(track);
        proof {
            lemma_deep_view_push(old(self).tracks, self.tracks, track);
        }
    }
}

impl IntoIterator for TrackInfo {
    type Item = Track;

    type IntoIter = std::vec::IntoIter<Track>;

    fn into_iter(self) -> (r: std::vec::IntoIter<Track>)
        ensures
            vstd::std_specs::iter::IteratorSpec::remaining(&r) == self.tracks@,
    {
        self.tracks.into_iter()
    }
}
impl<'a> IntoIterator for &'a TrackInfo {
    type Item = &'a Track;
    type IntoIter = std::slice::Iter<'a, Track>;
    fn into_iter(self) -> (r: std::slice::Iter<'a, Track>)
        ensures
            vstd::std_specs::iter::IteratorSpec::remaining(&r) == self.tracks@.as_ref(),
    {
        self.tracks.iter()
    }
}

} // verus!
