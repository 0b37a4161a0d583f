//! A gallery job description, as shown to the user while it is crawled.

use crate::numeral::dec_str;
use crate::numeral::usize_to_string;
use vstd::prelude::*;

verus! {

/// One gallery: an artist, a title, the gallery's address, and optionally
/// the page range to fetch.
pub struct Gallery {
    artist: String,
    title: String,
    url: String,
    range: Option<(usize, usize)>,
}

/// The description of a gallery: `[<artist>] <title> @ <url>`, with
/// ` pp. <start>-<end>` appended when a page range is present.
pub open spec fn gallery_line(
    artist: Seq<char>,
    title: Seq<char>,
    url: Seq<char>,
    range: Option<(usize, usize)>,
) -> Seq<char> {
    let head = "["@ + artist + "] "@ + title + " @ "@ + url;
    match range {
        Some((start, end)) => head + " pp. "@ + dec_str(start as nat) + "-"@ + dec_str(
            end as nat,
        ),
        None => head,
    }
}

impl Gallery {
    pub closed spec fn artist(&self) -> Seq<char> {
        self.artist@
    }

    pub closed spec fn title(&self) -> Seq<char> {
        self.title@
    }

    pub closed spec fn url(&self) -> Seq<char> {
        self.url@
    }

    pub closed spec fn range(&self) -> Option<(usize, usize)> {
        self.range
    }

    /// A gallery with the given artist, title, address and page range.
    pub fn new(artist: &str, title: &str, url: &str, range: Option<(usize, usize)>) -> (r:
        Gallery)
        ensures
            r.artist() == artist@,
            r.title() == title@,
            r.url() == url@,
            r.range() == range,
    {
        Gallery {
            artist: artist.to_owned(),
            title: title.to_owned(),
            url: url.to_owned(),
            range,
        }
    }

    /// Renders the gallery description line.
    pub fn describe(&self) -> (r: String)
        ensures
            r@ == gallery_line(self.artist(), self.title(), self.url(), self.range()),
    {
        let mut line = String::from_str("[");
        line.append(self.artist.as_str());
        line.append("] ");
        line.append(self.title.as_str());
        line.append(" @ ");
        line.append(self.url.as_str());
        match self.range {
            Some((start, end)) => {
                line.append(" pp. ");
                let start_digits = usize_to_string(start);
                line.append(start_digits.as_str());
                line.append("-");
                let end_digits = usize_to_string(end);
                line.append(end_digits.as_str());
            },
            None => (),
        }
        line
    }
}

} // verus!
