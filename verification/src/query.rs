//! Searching: from the arguments and the results page to the images, or to
//! their addresses.
//!
//! The page is fetched by the caller, from the address that `build_url` gives.

use vstd::prelude::*;
use vstd::string::*;
use crate::arguments::{Arguments, ArgumentsView};
use crate::error::Error;
use crate::extract::{anchor, extracted, unpack, views, Image, ImageView};
use crate::scan::occurs;
use crate::text::texts;

verus! {

/// At most `limit` of `list` from its front; all of it where `limit` is 0.
pub open spec fn limited<A>(list: Seq<A>, limit: usize) -> Seq<A> {
    if limit > 0 && list.len() > limit {
        list.take(limit as int)
    } else {
        list
    }
}

/// The address that stands for an image: that of its thumbnail or that of
/// the image in full size.
pub open spec fn chosen(image: ImageView, thumbnails: bool) -> Seq<char> {
    if thumbnails {
        image.thumbnail
    } else {
        image.url
    }
}

/// The addresses that stand for `images`.
pub open spec fn addresses(images: Seq<ImageView>, thumbnails: bool) -> Seq<Seq<char>> {
    Seq::new(images.len(), |i: int| chosen(images[i], thumbnails))
}

/// The images that a search with `args` finds on `page`, given what the
/// parser makes of the JSON text in it.
pub open spec fn found(args: ArgumentsView, page: Seq<u8>) -> Result<Seq<ImageView>, Error> {
    match extracted(page) {
        Some(images) => Ok(limited(images, args.limit)),
        None => Err(Error::Parse),
    }
}

/// The candidates of a download with `args` from `page`: the addresses of
/// all its images, whatever the limit.
pub open spec fn offered(args: ArgumentsView, page: Seq<u8>) -> Result<Seq<Seq<char>>, Error> {
    match extracted(page) {
        Some(images) => Ok(addresses(images, args.thumbnails)),
        None => Err(Error::Parse),
    }
}

/// The addresses that stand for `images`.
pub fn select(images: &Vec<Image>, thumbnails: bool) -> (all: Vec<String>)
    ensures
        texts(all@) == addresses(views(images@), thumbnails),
{
    let mut all: Vec<String> = Vec::new();
    let mut at: usize = 0;
    while at < images.len()
        invariant
            at <= images.len(),
            all@.len() == at,
            forall|i: int| 0 <= i < at ==> (#[trigger] all@[i])@ == chosen(images@[i]@, thumbnails),
        decreases images.len() - at,
    {
        let image = &images[at];
        if thumbnails {
            all.push(image.thumbnail.clone());
        } else {
            all.push(image.url.clone());
        }
        at += 1;
    }
    proof {
        assert(texts(all@) =~= addresses(views(images@), thumbnails));
    }
    all
}

/// The images on the results page `body`, up to the limit of `args`.
///
/// Fails with `Parse`, and with nothing else, where the page holds no image
/// data that can be read; a page without the anchor of the data is such a
/// page.
pub fn search(args: &Arguments, body: &str) -> (result: Result<Vec<Image>, Error>)
    ensures
        match result {
            Ok(images) => {
                &&& found(args@, body.spec_bytes()) == Ok::<Seq<ImageView>, Error>(views(images@))
                &&& forall|i: int| 0 <= i < images@.len() ==> (#[trigger] images@[i])@.is_sound()
            },
            Err(error) => error == Error::Parse && extracted(body.spec_bytes()) is None,
        },
        !occurs(body.spec_bytes(), anchor()) ==> result is Err,
{
    let mut images = match unpack(body) {
        Some(images) => images,
        None => {
            return Err(Error::Parse);
        },
    };
    let limit = args.limit();
    if images.len() > limit && limit > 0 {
        let ghost all = images@;
        images.truncate(limit);
        proof {
            assert(views(images@) =~= views(all).take(limit as int));
        }
    }
    Ok(images)
}

/// The addresses of the images on the results page `body`, up to the limit
/// of `args`: those of the thumbnails where `args` choose them, else those of
/// the images in full size.
///
/// Fails as `search` does.
pub fn urls(args: &Arguments, body: &str) -> (result: Result<Vec<String>, Error>)
    ensures
        match result {
            Ok(all) => found(args@, body.spec_bytes()) is Ok && texts(all@) == addresses(
                found(args@, body.spec_bytes())->Ok_0,
                args@.thumbnails,
            ),
            Err(error) => error == Error::Parse && extracted(body.spec_bytes()) is None,
        },
        !occurs(body.spec_bytes(), anchor()) ==> result is Err,
{
    match search(args, body) {
        Ok(images) => Ok(select(&images, args.wants_thumbnails())),
        Err(error) => Err(error),
    }
}

/// The candidates of a download: the addresses of all images on the results
/// page `body`, whatever the limit of `args`. A download wants `limit` files
/// and may need more candidates than that to get them.
///
/// Fails as `search` does.
pub fn candidates(args: &Arguments, body: &str) -> (result: Result<Vec<String>, Error>)
    ensures
        match result {
            Ok(all) => offered(args@, body.spec_bytes()) == Ok::<Seq<Seq<char>>, Error>(
                texts(all@),
            ),
            Err(error) => error == Error::Parse && extracted(body.spec_bytes()) is None,
        },
        !occurs(body.spec_bytes(), anchor()) ==> result is Err,
{
    match unpack(body) {
        Some(images) => Ok(select(&images, args.wants_thumbnails())),
        None => Err(Error::Parse),
    }
}

} // verus!
