//! What a cue sheet says of the disc as a whole.

use vstd::prelude::*;
use vstd::string::*;
use crate::decimal::decimal;
use crate::decimal::decimal_len;
use crate::error::InvalidArgument;
use crate::error::ParseError;
use crate::error::ParseErrorView;
use crate::views::lemma_deep_view_push;

verus! {

/// Number of digits of a catalog number.
pub const CATALOG_DIGITS: usize = 13;

/// The least number that does not fit in 13 digits.
pub const CATALOG_LIMIT: u64 = 10_000_000_000_000;

/// Metadata of the disc.
#[derive(Debug, Clone, PartialEq, Eq, Hash)]
pub struct Header {
    /// Titles, in the order of the sheet.
    pub title: Vec<String>,
    /// Performers, in the order of the sheet.
    pub performer: Vec<String>,
    /// Songwriters, in the order of the sheet.
    pub songwriter: Vec<String>,
    /// Media catalog number, a number of 13 digits.
    pub catalog: Option<u64>,
    /// Name of the file that holds the CD-TEXT data.
    pub cdtextfile: Option<String>,
}

/// A header with its texts as sequences of characters.
pub struct HeaderView {
    pub title: Seq<Seq<char>>,
    pub performer: Seq<Seq<char>>,
    pub songwriter: Seq<Seq<char>>,
    pub catalog: Option<u64>,
    pub cdtextfile: Option<Seq<char>>,
}

impl HeaderView {
    /// The header that holds nothing.
    pub open spec fn empty() -> HeaderView {
        HeaderView {
            title: Seq::empty(),
            performer: Seq::empty(),
            songwriter: Seq::empty(),
            catalog: None,
            cdtextfile: None,
        }
    }

    /// The catalog number, where there is one, fits in 13 digits.
    pub open spec fn wf(self) -> bool {
        self.catalog matches Some(c) ==> c < CATALOG_LIMIT
    }
}

impl View for Header {
    type V = HeaderView;

    open spec fn view(&self) -> HeaderView {
        HeaderView {
            title: self.title.deep_view(),
            performer: self.performer.deep_view(),
            songwriter: self.songwriter.deep_view(),
            catalog: self.catalog,
            cdtextfile: self.cdtextfile.deep_view(),
        }
    }
}

impl DeepView for Header {
    type V = HeaderView;

    open spec fn deep_view(&self) -> HeaderView {
        self@
    }
}

/// Number of decimal digits of `d`.
fn len(d: u64) -> (r: usize)
    ensures
        r == decimal(d as nat).len(),
{
    decimal_len(d)
}

impl Header {
    /// See `HeaderView::wf`.
    pub open spec fn wf(&self) -> bool {
        self@.wf()
    }

    /// The titles of the disc.
    pub fn title(&self) -> (r: &Vec<String>)
        ensures
            r.deep_view() == self@.title,
    {
        &self.title
    }

    /// The titles of the disc, to be changed in place.
    pub fn title_mut(&mut self) -> (r: &mut Vec<String>)
        ensures
            *r == old(self).title,
            *final(self) == (Header { title: *final(r), ..*old(self) }),
    {
        &mut self.title
    }

    /// Appends a title.
    pub fn push_title(&mut self, title: String)
        ensures
            final(self)@ == (HeaderView { title: old(self)@.title.push(title@), ..old(self)@ }),
    {
        self.title.push(title);
        proof {
            lemma_deep_view_push(old(self).title, self.title, title);
        }
    }

    /// The performers of the disc.
    pub fn performer(&self) -> (r: &Vec<String>)
        ensures
            r.deep_view() == self@.performer,
    {
        &self.performer
    }

    /// The performers of the disc, to be changed in place.
    pub fn performer_mut(&mut self) -> (r: &mut Vec<String>)
        ensures
            *r == old(self).performer,
            *final(self) == (Header { performer: *final(r), ..*old(self) }),
    {
        &mut self.performer
    }

    /// Appends a performer.
    pub fn push_performer(&mut self, performer: String)
        ensures
            final(self)@ == (HeaderView {
                performer: old(self)@.performer.push(performer@),
                ..old(self)@
            }),
    {
        self.performer.push(performer);
        proof {
            lemma_deep_view_push(old(self).performer, self.performer, performer);
        }
    }

    /// The songwriters of the disc.
    pub fn songwriter(&self) -> (r: &Vec<String>)
        ensures
            r.deep_view() == self@.songwriter,
    {
        &self.songwriter
    }

    /// The songwriters of the disc, to be changed in place.
    pub fn songwriter_mut(&mut self) -> (r: &mut Vec<String>)
        ensures
            *r == old(self).songwriter,
            *final(self) == (Header { songwriter: *final(r), ..*old(self) }),
    {
        &mut self.songwriter
    }

    /// Appends a songwriter.
    pub fn push_songwriter(&mut self, songwriter: String)
        ensures
            final(self)@ == (HeaderView {
                songwriter: old(self)@.songwriter.push(songwriter@),
                ..old(self)@
            }),
    {
        self.songwriter.push(songwriter);
        proof {
            lemma_deep_view_push(old(self).songwriter, self.songwriter, songwriter);
        }
    }

    /// The catalog number of the disc.
    pub fn catalog(&self) -> (r: Option<u64>)
        ensures
            r == self@.catalog,
    {
        self.catalog
    }

    /// Sets the catalog number and returns the one the header had.  A number
    /// that is not written in exactly 13 digits is refused, and the header
    /// stays as it is.
    pub fn set_catalog(&mut self, catalog: u64) -> (r: Result<Option<u64>, ParseError>)
        ensures
            match r {
                Ok(before) => {
                    &&& decimal(catalog as nat).len() == CATALOG_DIGITS
                    &&& before == old(self)@.catalog
                    &&& final(self)@ == (HeaderView { catalog: Some(catalog), ..old(self)@ })
                },
                Err(e) => {
                    &&& decimal(catalog as nat).len() != CATALOG_DIGITS
                    &&& e@ == ParseErrorView::InvalidArgument(InvalidArgument::InvalidId)
                    &&& *final(self) == *old(self)
                },
            },
    {
        if len(catalog) == CATALOG_DIGITS {
            let before = self.catalog;
            self.catalog = Some(catalog);
            Ok(before)
        } else {
            Err(ParseError::InvalidArgument(InvalidArgument::InvalidId))
        }
    }

    /// The name of the file that holds the CD-TEXT data.
    pub fn cdtextfile(&self) -> (r: Option<&str>)
        ensures
            match self@.cdtextfile {
                Some(t) => r matches Some(x) && x@ == t,
                None => r is None,
            },
    {
        match &self.cdtextfile {
            Some(s) => Some(s.as_str()),
            None => None,
        }
    }

    /// Sets the name of the file that holds the CD-TEXT data and returns the
    /// one the header had.
    pub fn set_cdtextfile(&mut self, cdtextfile: String) -> (r: Option<String>)
        ensures
            r.deep_view() == old(self)@.cdtextfile,
            final(self)@ == (HeaderView { cdtextfile: Some(cdtextfile@), ..old(self)@ }),
    {
        let before = self.cdtextfile.take();
        self.cdtextfile = Some(cdtextfile);
        before
    }
}

impl Default for Header {
    fn default() -> (r: Self)
        ensures
            r@ == HeaderView::empty(),
    {
        let r = Header {
            title: Vec::new(),
            performer: Vec::new(),
            songwriter: Vec::new(),
            catalog: None,
            cdtextfile: None,
        };
        assert(r@ =~= HeaderView::empty()) by {
            assert(r.songwriter.deep_view() =~= Seq::<Seq<char>>::empty());
        }
        r
    }
}

} // verus!
