//! What to search for, and what to do with what is found.

use vstd::prelude::*;
use vstd::string::*;
use crate::options::{Color, ColorType, Format, ImageType, License, Ratio, Time};

verus! {

/// The arguments of a search or a download.
///
/// `limit` is the greatest number of images wanted, 0 for no limit on a
/// search. `timeout` is the time allowed for one request of a download, in
/// milliseconds. `directory` is where a download puts its files.
#[derive(Debug, Clone)]
pub struct Arguments {
    query: String,
    limit: usize,
    thumbnails: bool,
    timeout: Option<u64>,
    directory: Option<String>,
    color: Color,
    color_type: ColorType,
    license: License,
    image_type: ImageType,
    time: Time,
    ratio: Ratio,
    format: Format,
}

/// `Arguments` as plain values.
pub struct ArgumentsView {
    pub query: Seq<char>,
    pub limit: usize,
    pub thumbnails: bool,
    pub timeout: Option<u64>,
    pub directory: Option<Seq<char>>,
    pub color: Color,
    pub color_type: ColorType,
    pub license: License,
    pub image_type: ImageType,
    pub time: Time,
    pub ratio: Ratio,
    pub format: Format,
}

impl View for Arguments {
    type V = ArgumentsView;

    closed spec fn view(&self) -> ArgumentsView {
        ArgumentsView {
            query: self.query@,
            limit: self.limit,
            thumbnails: self.thumbnails,
            timeout: self.timeout,
            directory: match self.directory {
                Some(dir) => Some(dir@),
                None => None,
            },
            color: self.color,
            color_type: self.color_type,
            license: self.license,
            image_type: self.image_type,
            time: self.time,
            ratio: self.ratio,
            format: self.format,
        }
    }
}

/// The time allowed for a request where nothing else is asked for: 20
/// seconds, in milliseconds.
pub const DEFAULT_TIMEOUT: u64 = 20000;

/// What one filter adds to the address: a separator and its parameter, or
/// nothing where it has no parameter to speak of.
pub open spec fn clause(param: Seq<char>) -> Seq<char> {
    if param.len() > 1 {
        "%2C"@ + param
    } else {
        Seq::empty()
    }
}

impl ArgumentsView {
    /// The arguments that `new` gives: no filter, full-size images, the
    /// default timeout and no directory.
    pub open spec fn plain(query: Seq<char>, limit: usize) -> ArgumentsView {
        ArgumentsView {
            query,
            limit,
            thumbnails: false,
            timeout: Some(DEFAULT_TIMEOUT),
            directory: None,
            color: Color::Any,
            color_type: ColorType::Any,
            license: License::Any,
            image_type: ImageType::Any,
            time: Time::Any,
            ratio: Ratio::Any,
            format: Format::Any,
        }
    }

    /// What the filters add to the address, one after the other.
    pub open spec fn filters(self) -> Seq<char> {
        clause(self.color.param_spec()) + clause(self.color_type.param_spec()) + clause(
            self.license.param_spec(),
        ) + clause(self.image_type.param_spec()) + clause(self.time.param_spec()) + clause(
            self.ratio.param_spec(),
        ) + clause(self.format.param_spec())
    }

    /// The address of the results page.
    pub open spec fn address(self) -> Seq<char> {
        let plain = "https://www.google.com/search?tbm=isch&q="@ + self.query;
        if self.filters().len() > 0 {
            plain + "&tbs=ic:specific"@ + self.filters()
        } else {
            plain
        }
    }
}

fn add_clause(text: String, param: String) -> (longer: String)
    ensures
        longer@ == text@ + clause(param@),
{
    if param.as_str().unicode_len() > 1 {
        let longer = text.concat("%2C").concat(param.as_str());
        proof {
            assert(longer@ =~= text@ + clause(param@));
        }
        longer
    } else {
        proof {
            assert(text@ =~= text@ + clause(param@));
        }
        text
    }
}

impl Arguments {
    /// Arguments for a search for `query` that wants `limit` images.
    pub fn new(query: &str, limit: usize) -> (args: Arguments)
        ensures
            args@ == ArgumentsView::plain(query@, limit),
    {
        Arguments {
            query: query.to_owned(),
            limit,
            thumbnails: false,
            timeout: Some(DEFAULT_TIMEOUT),
            directory: None,
            color: Color::Any,
            color_type: ColorType::Any,
            license: License::Any,
            image_type: ImageType::Any,
            time: Time::Any,
            ratio: Ratio::Any,
            format: Format::Any,
        }
    }

    /// Sets the directory that a download puts its files in.
    pub fn directory(self, dir: &str) -> (args: Arguments)
        ensures
            args@ == (ArgumentsView { directory: Some(dir@), ..self@ }),
    {
        let mut args = self;
        args.directory = Some(dir.to_owned());
        args
    }

    /// Sets the time allowed for one request of a download, in milliseconds;
    /// `None` allows any time.
    pub fn timeout(self, timeout: Option<u64>) -> (args: Arguments)
        ensures
            args@ == (ArgumentsView { timeout, ..self@ }),
    {
        let mut args = self;
        args.timeout = timeout;
        args
    }

    /// Chooses the thumbnails in place of the images in full size.
    pub fn thumbnails(self, thumb: bool) -> (args: Arguments)
        ensures
            args@ == (ArgumentsView { thumbnails: thumb, ..self@ }),
    {
        let mut args = self;
        args.thumbnails = thumb;
        args
    }

    /// Sets the colour to filter by.
    pub fn color(self, color: Color) -> (args: Arguments)
        ensures
            args@ == (ArgumentsView { color, ..self@ }),
    {
        let mut args = self;
        args.color = color;
        args
    }

    /// Sets the kind of colouring to filter by.
    pub fn color_type(self, color_type: ColorType) -> (args: Arguments)
        ensures
            args@ == (ArgumentsView { color_type, ..self@ }),
    {
        let mut args = self;
        args.color_type = color_type;
        args
    }

    /// Sets the licence to filter by.
    pub fn license(self, license: License) -> (args: Arguments)
        ensures
            args@ == (ArgumentsView { license, ..self@ }),
    {
        let mut args = self;
        args.license = license;
        args
    }

    /// Sets the kind of image to filter by.
    pub fn image_type(self, image_type: ImageType) -> (args: Arguments)
        ensures
            args@ == (ArgumentsView { image_type, ..self@ }),
    {
        let mut args = self;
        args.image_type = image_type;
        args
    }

    /// Sets how long ago the images may have been posted.
    pub fn time(self, time: Time) -> (args: Arguments)
        ensures
            args@ == (ArgumentsView { time, ..self@ }),
    {
        let mut args = self;
        args.time = time;
        args
    }

    /// Sets the rough aspect ratio to filter by.
    pub fn ratio(self, ratio: Ratio) -> (args: Arguments)
        ensures
            args@ == (ArgumentsView { ratio, ..self@ }),
    {
        let mut args = self;
        args.ratio = ratio;
        args
    }

    /// Sets the file format to filter by.
    pub fn format(self, format: Format) -> (args: Arguments)
        ensures
            args@ == (ArgumentsView { format, ..self@ }),
    {
        let mut args = self;
        args.format = format;
        args
    }

    /// What is searched for. A download names its files after it.
    pub fn query(&self) -> (query: &str)
        ensures
            query@ == self@.query,
    {
        self.query.as_str()
    }

    /// The greatest number of images wanted.
    pub fn limit(&self) -> (limit: usize)
        ensures
            limit == self@.limit,
    {
        self.limit
    }

    /// Whether the thumbnails are chosen.
    pub fn wants_thumbnails(&self) -> (thumb: bool)
        ensures
            thumb == self@.thumbnails,
    {
        self.thumbnails
    }

    /// The time allowed for one request, in milliseconds.
    pub fn allowed_time(&self) -> (timeout: Option<u64>)
        ensures
            timeout == self@.timeout,
    {
        self.timeout
    }

    /// The directory that a download puts its files in, where one is set.
    pub fn target(&self) -> (dir: Option<&str>)
        ensures
            self@.directory == match dir {
                Some(text) => Some(text@),
                None => None,
            },
    {
        match &self.directory {
            Some(dir) => Some(dir.as_str()),
            None => None,
        }
    }

    /// What the filters add to the address of the results page.
    pub fn params(&self) -> (text: String)
        ensures
            text@ == self@.filters(),
    {
        let text = String::new();
        let text = add_clause(text, self.color.param());
        let text = add_clause(text, self.color_type.param());
        let text = add_clause(text, self.license.param());
        let text = add_clause(text, self.image_type.param());
        let text = add_clause(text, self.time.param());
        let text = add_clause(text, self.ratio.param());
        let text = add_clause(text, self.format.param());
        proof {
            assert(text@ =~= self@.filters());
        }
        text
    }
}

/// The address of the results page for `args`.
pub fn build_url(args: &Arguments) -> (url: String)
    ensures
        url@ == args@.address(),
{
    let url = String::from_str("https://www.google.com/search?tbm=isch&q=").concat(args.query());
    let params = args.params();
    if !params.as_str().is_empty() {
        url.concat("&tbs=ic:specific").concat(params.as_str())
    } else {
        url
    }
}

} // verus!
