//! Reading image records out of a results page.
//!
//! The page carries its data as a JSON array inside a script block. The block
//! is found by its anchor, cut out, parsed, and walked along fixed positions.
//! A page that cannot be walked as far as the list of entries yields nothing;
//! an entry that cannot be walked is passed over and the others still count.

use vstd::prelude::*;
use vstd::slice::slice_subrange;
use vstd::string::*;
use crate::json::{owned, parse, parsed, Json};
use crate::scan::{find, first_index, last_index, occurs, rfind};

verus! {

/// One image of a results page.
///
/// In a record read from a page the three addresses are not empty and the
/// two measures are positive.
#[derive(Debug, Clone)]
pub struct Image {
    /// Address of the image in full size.
    pub url: String,
    /// Width in pixels.
    pub width: i64,
    /// Height in pixels.
    pub height: i64,
    /// Address of the thumbnail.
    pub thumbnail: String,
    /// Address of the page the image was found on.
    pub source: String,
}

/// An `Image` as plain values.
pub struct ImageView {
    pub url: Seq<char>,
    pub width: i64,
    pub height: i64,
    pub thumbnail: Seq<char>,
    pub source: Seq<char>,
}

impl View for Image {
    type V = ImageView;

    open spec fn view(&self) -> ImageView {
        ImageView {
            url: self.url@,
            width: self.width,
            height: self.height,
            thumbnail: self.thumbnail@,
            source: self.source@,
        }
    }
}

impl ImageView {
    /// The addresses are not empty and the measures are positive.
    pub open spec fn is_sound(self) -> bool {
        &&& self.url.len() > 0
        &&& self.width > 0
        &&& self.height > 0
        &&& self.thumbnail.len() > 0
        &&& self.source.len() > 0
    }
}

/// The records of a list of images.
pub open spec fn views(images: Seq<Image>) -> Seq<ImageView> {
    images.map_values(|image: Image| image@)
}

/// The token that marks the script block holding the data.
pub open spec fn anchor() -> Seq<u8> {
    "AF_initDataCallback".spec_bytes()
}

/// The first byte of the data.
pub open spec fn opening() -> Seq<u8> {
    "[".spec_bytes()
}

/// The end of the script block.
pub open spec fn closing() -> Seq<u8> {
    "</script>".spec_bytes()
}

/// The separator between the top-level elements of the data.
pub open spec fn separator() -> Seq<u8> {
    ",".spec_bytes()
}

/// The JSON text inside `page`.
///
/// It starts at the first `[` after the last anchor and runs up to the last
/// `,` before the `</script>` that follows: the block ends in the middle of a
/// statement, and what trails the last separator is dropped.
pub open spec fn payload(page: Seq<u8>) -> Option<Seq<u8>> {
    match last_index(page, anchor()) {
        None => None,
        Some(script) => {
            let region = page.skip(script);
            match first_index(region, opening()) {
                None => None,
                Some(start) => {
                    let data = region.skip(start);
                    match first_index(data, closing()) {
                        None => None,
                        Some(end) => {
                            let block = data.take(end);
                            match last_index(block, separator()) {
                                None => None,
                                Some(cut) => Some(block.take(cut)),
                            }
                        },
                    }
                },
            }
        },
    }
}

/// Cuts the JSON text out of `page`.
pub fn cut_payload(page: &[u8]) -> (text: Option<&[u8]>)
    ensures
        payload(page@) == match text {
            Some(bytes) => Some(bytes@),
            None => None,
        },
        !occurs(page@, anchor()) ==> text is None,
{
    let script = match rfind(page, "AF_initDataCallback".as_bytes()) {
        Some(at) => at,
        None => {
            return None;
        },
    };
    let region = slice_subrange(page, script, page.len());
    let start = match find(region, "[".as_bytes()) {
        Some(at) => at,
        None => {
            return None;
        },
    };
    let data = slice_subrange(region, start, region.len());
    let end = match find(data, "</script>".as_bytes()) {
        Some(at) => at,
        None => {
            return None;
        },
    };
    let block = slice_subrange(data, 0, end);
    let cut = match rfind(block, ",".as_bytes()) {
        Some(at) => at,
        None => {
            return None;
        },
    };
    Some(slice_subrange(block, 0, cut))
}

/// The element at `index` of an array that was reached.
pub open spec fn at(value: Option<Json>, index: int) -> Option<Json> {
    match value {
        Some(json) => json.item(index),
        None => None,
    }
}

/// The last element of an array that was reached.
pub open spec fn at_last(value: Option<Json>) -> Option<Json> {
    match value {
        Some(json) => json.last_item(),
        None => None,
    }
}

/// The member under `key` of an object that was reached.
pub open spec fn under(value: Option<Json>, key: Seq<char>) -> Option<Json> {
    match value {
        Some(json) => json.field(key),
        None => None,
    }
}

/// The characters of a string that was reached.
pub open spec fn text_at(value: Option<Json>) -> Option<Seq<char>> {
    match value {
        Some(json) => json.text(),
        None => None,
    }
}

/// The value of an integer that was reached.
pub open spec fn integer_at(value: Option<Json>) -> Option<i64> {
    match value {
        Some(json) => json.integer(),
        None => None,
    }
}

/// The list of entries, one for each image, inside the parsed data.
pub open spec fn entries_of(data: Json) -> Option<Seq<Json>> {
    match at(at(at_last(at(at(at(Some(data), 56), 1), 0)), 1), 0) {
        Some(list) => list.elements(),
        None => None,
    }
}

/// The array inside an entry that holds the fields of its image.
pub open spec fn fields_of(entry: Json) -> Option<Json> {
    at(under(at(at(Some(entry), 0), 0), "444383007"@), 1)
}

/// The record that `entry` holds, where every field is in its place and of
/// its type: the address, height and width of the image together at one
/// place, the thumbnail and the source page at two others. An address is a
/// string that is not empty, a measure an integer above 0.
pub open spec fn record_of(entry: Json) -> Option<ImageView> {
    let fields = fields_of(entry);
    let full = at(fields, 3);
    let url = text_at(at(full, 0));
    let height = integer_at(at(full, 1));
    let width = integer_at(at(full, 2));
    let thumbnail = text_at(at(at(fields, 2), 0));
    let source = text_at(at(under(at(fields, 22), "2003"@), 2));
    if url is Some && height is Some && width is Some && thumbnail is Some && source is Some {
        let record = ImageView {
            url: url->0,
            width: width->0,
            height: height->0,
            thumbnail: thumbnail->0,
            source: source->0,
        };
        if record.is_sound() {
            Some(record)
        } else {
            None
        }
    } else {
        None
    }
}

/// The records of those among `entries` that hold one, in their order.
pub open spec fn records_of(entries: Seq<Json>) -> Seq<ImageView>
    decreases entries.len(),
{
    if entries.len() == 0 {
        Seq::empty()
    } else {
        let before = records_of(entries.drop_last());
        match record_of(entries.last()) {
            Some(record) => before.push(record),
            None => before,
        }
    }
}

/// There are never more records than entries, and every record is sound.
pub proof fn lemma_records_bounded(entries: Seq<Json>)
    ensures
        records_of(entries).len() <= entries.len(),
        forall|i: int|
            0 <= i < records_of(entries).len() ==> (#[trigger] records_of(entries)[i]).is_sound(),
    decreases entries.len(),
{
    if entries.len() > 0 {
        lemma_records_bounded(entries.drop_last());
    }
}

/// An entry that does not have the expected shape is passed over: with one
/// such entry among them, the entries yield fewer records than there are
/// entries.
pub proof fn lemma_malformed_entry_is_passed_over(entries: Seq<Json>, which: int)
    requires
        0 <= which < entries.len(),
        record_of(entries[which]) is None,
    ensures
        records_of(entries).len() < entries.len(),
    decreases entries.len(),
{
    let front = entries.drop_last();
    if which == entries.len() - 1 {
        lemma_records_bounded(front);
    } else {
        lemma_malformed_entry_is_passed_over(front, which);
    }
}

/// An entry of the expected shape is kept as it stands: its record is among
/// the records, behind the records of the entries before it, and every field
/// of the record is the value found in the entry.
pub proof fn lemma_well_formed_entry_is_kept(entries: Seq<Json>, which: int)
    requires
        0 <= which < entries.len(),
        record_of(entries[which]) is Some,
    ensures
        records_of(entries.take(which)).len() < records_of(entries).len(),
        records_of(entries)[records_of(entries.take(which)).len() as int] == record_of(
            entries[which],
        )->0,
    decreases entries.len(),
{
    let front = entries.drop_last();
    if which == entries.len() - 1 {
        assert(entries.take(which) =~= front);
    } else {
        lemma_well_formed_entry_is_kept(front, which);
        assert(front.take(which) =~= entries.take(which));
    }
}

/// The records inside the parsed data; `None` where the list of entries is
/// not in its place.
pub open spec fn images_in(data: Json) -> Option<Seq<ImageView>> {
    match entries_of(data) {
        Some(entries) => Some(records_of(entries)),
        None => None,
    }
}

/// The records of a page, given what the parser makes of its JSON text.
pub open spec fn extracted(page: Seq<u8>) -> Option<Seq<ImageView>> {
    match payload(page) {
        None => None,
        Some(text) => match parsed(text) {
            None => None,
            Some(data) => images_in(data),
        },
    }
}

fn step(value: Option<&Json>, index: usize) -> (found: Option<&Json>)
    ensures
        owned(found) == at(owned(value), index as int),
{
    match value {
        Some(json) => json.get(index),
        None => None,
    }
}

fn step_last(value: Option<&Json>) -> (found: Option<&Json>)
    ensures
        owned(found) == at_last(owned(value)),
{
    match value {
        Some(json) => json.last(),
        None => None,
    }
}

fn step_under<'a>(value: Option<&'a Json>, key: &str) -> (found: Option<&'a Json>)
    ensures
        owned(found) == under(owned(value), key@),
{
    match value {
        Some(json) => json.lookup(key),
        None => None,
    }
}

fn read_address(value: Option<&Json>) -> (found: Option<String>)
    ensures
        found is Some <==> text_at(owned(value)) is Some && text_at(owned(value))->0.len() > 0,
        found is Some ==> found->0@ == text_at(owned(value))->0,
{
    match value {
        Some(json) => match json.as_str() {
            Some(text) => if text.is_empty() {
                None
            } else {
                Some(text.to_owned())
            },
            None => None,
        },
        None => None,
    }
}

fn read_measure(value: Option<&Json>) -> (found: Option<i64>)
    ensures
        found is Some <==> integer_at(owned(value)) is Some && integer_at(owned(value))->0 > 0,
        found is Some ==> found == integer_at(owned(value)),
{
    match value {
        Some(json) => match json.as_i64() {
            Some(number) => if number > 0 {
                Some(number)
            } else {
                None
            },
            None => None,
        },
        None => None,
    }
}

/// Reads the record of one entry.
///
/// `None` means that the entry does not have the expected shape; nothing else
/// fails.
pub fn read_entry(entry: &Json) -> (image: Option<Image>)
    ensures
        image is Some <==> record_of(*entry) is Some,
        image is Some ==> image->0@ == record_of(*entry)->0,
        image is Some ==> image->0@.is_sound(),
{
    let fields = step(step_under(step(step(Some(entry), 0), 0), "444383007"), 1);
    let full = step(fields, 3);
    let url = match read_address(step(full, 0)) {
        Some(text) => text,
        None => {
            return None;
        },
    };
    let height = match read_measure(step(full, 1)) {
        Some(number) => number,
        None => {
            return None;
        },
    };
    let width = match read_measure(step(full, 2)) {
        Some(number) => number,
        None => {
            return None;
        },
    };
    let thumbnail = match read_address(step(step(fields, 2), 0)) {
        Some(text) => text,
        None => {
            return None;
        },
    };
    let source = match read_address(step(step_under(step(fields, 22), "2003"), 2)) {
        Some(text) => text,
        None => {
            return None;
        },
    };
    Some(Image { url, width, height, thumbnail, source })
}

/// Reads the records of the entries that hold one, in their order.
pub fn read_entries(entries: &Vec<Json>) -> (images: Vec<Image>)
    ensures
        views(images@) == records_of(entries@),
        forall|i: int| 0 <= i < images@.len() ==> (#[trigger] images@[i])@.is_sound(),
{
    let mut images: Vec<Image> = Vec::new();
    let mut done: usize = 0;
    proof {
        assert(views(images@) =~= records_of(entries@.take(0)));
    }
    while done < entries.len()
        invariant
            done <= entries.len(),
            views(images@) == records_of(entries@.take(done as int)),
        decreases entries.len() - done,
    {
        let ghost before = images@;
        proof {
            assert(entries@.take(done + 1).drop_last() =~= entries@.take(done as int));
            assert(entries@.take(done + 1).last() == entries@[done as int]);
        }
        match read_entry(&entries[done]) {
            Some(image) => {
                images.push(image);
                proof {
                    assert(views(images@) =~= views(before).push(image@));
                }
            },
            None => {},
        }
        done += 1;
    }
    proof {
        assert(entries@.take(entries.len() as int) =~= entries@);
        lemma_records_bounded(entries@);
        assert forall|i: int| 0 <= i < images@.len() implies (#[trigger] images@[i])@.is_sound() by {
            assert(views(images@)[i] == images@[i]@);
        }
    }
    images
}

/// Reads the records out of parsed data.
///
/// `None` means that the list of entries is not where it is expected. Entries
/// of another shape are passed over.
pub fn read_images(data: &Json) -> (images: Option<Vec<Image>>)
    ensures
        images is Some <==> images_in(*data) is Some,
        images is Some ==> views(images->0@) == images_in(*data)->0,
        images is Some ==> forall|i: int|
            0 <= i < images->0@.len() ==> (#[trigger] images->0@[i])@.is_sound(),
{
    let list = step(step(step_last(step(step(step(Some(data), 56), 1), 0)), 1), 0);
    match list {
        Some(json) => match json.as_array() {
            Some(entries) => Some(read_entries(entries)),
            None => None,
        },
        None => None,
    }
}

/// Reads the image records out of a results page.
///
/// `None` means that the page holds no data that can be read: the anchor, the
/// array or the end of the block is missing, the text is not JSON, or the
/// list of entries is not in its place.
pub fn unpack(body: &str) -> (images: Option<Vec<Image>>)
    ensures
        images is Some <==> extracted(body.spec_bytes()) is Some,
        images is Some ==> views(images->0@) == extracted(body.spec_bytes())->0,
        images is Some ==> forall|i: int|
            0 <= i < images->0@.len() ==> (#[trigger] images->0@[i])@.is_sound(),
        !occurs(body.spec_bytes(), anchor()) ==> images is None,
{
    let text = match cut_payload(body.as_bytes()) {
        Some(bytes) => bytes,
        None => {
            return None;
        },
    };
    match parse(text) {
        Some(data) => read_images(&data),
        None => None,
    }
}

} // verus!
