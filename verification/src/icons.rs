//! The icons of what a file search found.
use std::io::Cursor;
use vstd::prelude::*;

use crate::batches::{bounded, concatenated, filled, lemma_concatenated_push};

verus! {

/// A picture, four bytes for each pixel.
#[derive(Clone, Debug)]
pub struct RgbaImage {
    pub width: u32,
    pub height: u32,
    pub pixels: Vec<u8>,
}

impl View for RgbaImage {
    type V = (u32, u32, Seq<u8>);

    /// The width, the height and the pixels.
    open spec fn view(&self) -> (u32, u32, Seq<u8>) {
        (self.width, self.height, self.pixels@)
    }
}

/// A picture by its width, its height and its pixels.
pub type Picture = (u32, u32, Seq<u8>);

/// There are four bytes for each pixel.
pub open spec fn has_all_pixels(picture: Picture) -> bool {
    4 * picture.0 * picture.1 <= picture.2.len()
}

/// What a picture that may be missing shows.
pub open spec fn shown(picture: Option<RgbaImage>) -> Option<Picture> {
    match picture {
        Some(image) => Some(image@),
        None => None,
    }
}

/// `image`'s `ImageReader` with `with_guessed_format` and `decode`, then `to_rgba8`: the format is
/// guessed from the data, and the picture that they hold comes back with four bytes for each pixel,
/// or nothing where any of the steps fails. The one claim is that a picture that comes back has its
/// four bytes for each pixel, which the crate checks whenever it makes one. Which data hold which
/// picture is not said: it depends on the formats that the crate is built with on the machine, and
/// on the decoders that the process has registered.
#[verifier::external_body]
fn decode_rgba(data: &Vec<u8>) -> (r: Option<RgbaImage>)
    ensures
        r matches Some(image) ==> has_all_pixels(image@),
{
    let reader = image::ImageReader::new(Cursor::new(data)).with_guessed_format().ok()?;
    let rgba = reader.decode().ok()?.to_rgba8();
    Some(RgbaImage { width: rgba.width(), height: rgba.height(), pixels: rgba.into_raw() })
}

/// The decoder may give `icon` for `data`: nothing, or a picture that has all its pixels. It need
/// not give the same for the same data on every machine and in every process.
pub closed spec fn may_decode_to(data: Vec<u8>, icon: Option<RgbaImage>) -> bool {
    call_ensures(decode_rgba, (&data,), icon)
}

/// What `decoder` gives for `data`.
fn run_decoder<D: Fn(&Vec<u8>) -> Option<RgbaImage>>(decoder: D, data: &Vec<u8>) -> (r: Option<
    RgbaImage,
>)
    requires
        call_requires(decoder, (data,)),
    ensures
        call_ensures(decoder, (data,), r),
{
    decoder(data)
}

/// What the icons of a batch show, each with its place in the results.
pub open spec fn pictures(batch: Seq<(usize, RgbaImage)>) -> Seq<(usize, Picture)> {
    batch.map_values(|icon: (usize, RgbaImage)| (icon.0, icon.1@))
}

/// How far the icons are loaded.
pub struct IconQueue {
    /// The place of the next icon.
    pub index: int,
    /// The number of icons to load.
    pub limit: int,
    /// The number of icons in a batch.
    pub size: int,
    /// The icons that wait for their batch.
    pub batch: Seq<(usize, Picture)>,
}

/// The queue for the icons of `count` results.
pub open spec fn queued(count: int, max_icons: int, size: int) -> IconQueue {
    IconQueue {
        index: 0,
        limit: if count < max_icons {
            count
        } else {
            max_icons
        },
        size,
        batch: seq![],
    }
}

/// The icons that wait once the next one is there, or is known to be missing.
pub open spec fn waiting(queue: IconQueue, icon: Option<Picture>) -> Seq<(usize, Picture)> {
    match icon {
        Some(picture) => queue.batch.push((queue.index as usize, picture)),
        None => queue.batch,
    }
}

/// The batch goes out: it is full, or the last icon is there, and it is not empty.
pub open spec fn sends(queue: IconQueue, icon: Option<Picture>) -> bool {
    let batch = waiting(queue, icon);
    (batch.len() >= queue.size || queue.index + 1 >= queue.limit) && batch.len() > 0
}

/// The queue once the next icon is there, or is known to be missing.
pub open spec fn advanced(queue: IconQueue, icon: Option<Picture>) -> IconQueue {
    IconQueue {
        index: queue.index + 1,
        batch: if sends(queue, icon) {
            seq![]
        } else {
            waiting(queue, icon)
        },
        ..queue
    }
}

/// `after` is `before` once `icon` is there, or is known to be missing, and `batch` is what goes
/// out.
pub open spec fn takes_icon(
    before: IconQueue,
    after: IconQueue,
    batch: Option<Vec<(usize, RgbaImage)>>,
    icon: Option<Picture>,
) -> bool {
    &&& after == advanced(before, icon)
    &&& batch is Some <==> sends(before, icon)
    &&& batch matches Some(sent) ==> pictures(sent@) == waiting(before, icon)
}

/// The queue once all of `icons` have come, one behind the other.
pub open spec fn advanced_by(queue: IconQueue, icons: Seq<Option<Picture>>) -> IconQueue
    decreases icons.len(),
{
    if icons.len() == 0 {
        queue
    } else {
        advanced(advanced_by(queue, icons.drop_last()), icons.last())
    }
}

/// The batches that have gone out once all of `icons` have come, one behind the other.
pub open spec fn sent(queue: IconQueue, icons: Seq<Option<Picture>>) -> Seq<Seq<(usize, Picture)>>
    decreases icons.len(),
{
    if icons.len() == 0 {
        seq![]
    } else {
        let before = advanced_by(queue, icons.drop_last());
        let batches = sent(queue, icons.drop_last());
        if sends(before, icons.last()) {
            batches.push(waiting(before, icons.last()))
        } else {
            batches
        }
    }
}

/// The icons that are there, each with its place.
pub open spec fn placed(icons: Seq<Option<Picture>>) -> Seq<(usize, Picture)>
    decreases icons.len(),
{
    if icons.len() == 0 {
        seq![]
    } else {
        match icons.last() {
            Some(picture) => placed(icons.drop_last()).push(
                ((icons.len() - 1) as usize, picture),
            ),
            None => placed(icons.drop_last()),
        }
    }
}

/// Whatever icons come, those that have gone out and those that wait are the ones that are there,
/// in order and each with its place. No batch is empty or holds more than `size` icons, and all
/// but the last hold as many. Once the last icon has come, none waits. As many icons are loaded as
/// there are results, but no more than `max_icons`.
pub proof fn icons_go_out_in_order(
    count: int,
    max_icons: int,
    size: int,
    icons: Seq<Option<Picture>>,
)
    requires
        size > 0,
        icons.len() <= queued(count, max_icons, size).limit,
    ensures
        ({
            let start = queued(count, max_icons, size);
            let end = advanced_by(start, icons);
            let batches = sent(start, icons);
            &&& concatenated(batches) + end.batch == placed(icons)
            &&& bounded(batches, size)
            &&& filled(batches, size)
            &&& end.index == icons.len()
            &&& icons.len() > 0 && icons.len() == start.limit ==> end.batch.len() == 0
            &&& end.limit <= count && end.limit <= max_icons
            &&& end.limit == count || end.limit == max_icons
        }),
{
    let start = queued(count, max_icons, size);
    lemma_icons_go_out(start, icons);
}

proof fn lemma_icons_go_out(start: IconQueue, icons: Seq<Option<Picture>>)
    requires
        start.size > 0,
        start.index == 0,
        start.batch.len() == 0,
        icons.len() <= start.limit,
    ensures
        ({
            let end = advanced_by(start, icons);
            let batches = sent(start, icons);
            &&& concatenated(batches) + end.batch == placed(icons)
            &&& bounded(batches, start.size)
            &&& filled(batches, start.size)
            &&& icons.len() < start.limit ==> forall|i: int|
                0 <= i < batches.len() ==> (#[trigger] batches[i]).len() == start.size
            &&& end.index == icons.len()
            &&& end.limit == start.limit
            &&& end.size == start.size
            &&& end.batch.len() < start.size
            &&& icons.len() > 0 && icons.len() == start.limit ==> end.batch.len() == 0
        }),
    decreases icons.len(),
{
    if icons.len() > 0 {
        let rest = icons.drop_last();
        lemma_icons_go_out(start, rest);
        let before = advanced_by(start, rest);
        let batch = waiting(before, icons.last());
        lemma_concatenated_push(sent(start, rest), batch);
        assert(concatenated(sent(start, rest)) + batch =~= placed(icons));
        assert(concatenated(sent(start, icons)) + advanced_by(start, icons).batch =~= placed(
            icons,
        ));
    } else {
        assert(concatenated(sent(start, icons)) + start.batch =~= placed(icons));
    }
}

/// Loads the icons of what a file search found, and hands them out in batches.
#[derive(Debug)]
pub struct IconLoader {
    index: usize,
    limit: usize,
    size: usize,
    batch: Vec<(usize, RgbaImage)>,
}

impl View for IconLoader {
    type V = IconQueue;

    closed spec fn view(&self) -> IconQueue {
        IconQueue {
            index: self.index as int,
            limit: self.limit as int,
            size: self.size as int,
            batch: pictures(self.batch@),
        }
    }
}

impl IconLoader {
    /// A loader for the icons of `count` results, of which the first `max_icons` get one.
    pub fn new(count: usize, max_icons: usize, size: usize) -> (r: Self)
        requires
            size > 0,
        ensures
            r@ == queued(count as int, max_icons as int, size as int),
    {
        let limit: usize = if count < max_icons {
            count
        } else {
            max_icons
        };
        let batch: Vec<(usize, RgbaImage)> = Vec::new();
        assert(pictures(batch@) == Seq::<(usize, Picture)>::empty());
        IconLoader { index: 0, limit, size, batch }
    }

    /// The place of the next icon, unless all are loaded or a new query has come.
    pub fn next_index(&self, query_changed: bool) -> (r: Option<usize>)
        ensures
            r is Some <==> self@.index < self@.limit && !query_changed,
            r matches Some(index) ==> index == self@.index,
    {
        if self.index < self.limit && !query_changed {
            Some(self.index)
        } else {
            None
        }
    }

    /// Takes the next icon, or that it is missing, and gives the batch that is to be sent.
    pub fn accept_icon(&mut self, icon: Option<RgbaImage>) -> (r: Option<Vec<(usize, RgbaImage)>>)
        requires
            old(self)@.index < old(self)@.limit,
        ensures
            takes_icon(old(self)@, final(self)@, r, shown(icon)),
    {
        let ghost before = self.batch@;
        let ghost picture = shown(icon);
        if let Some(image) = icon {
            self.batch.push((self.index, image));
            assert(pictures(self.batch@) == pictures(before).push((self.index, image@)));
        }
        assert(pictures(self.batch@) == waiting(old(self)@, picture));
        self.index = self.index + 1;
        if (self.batch.len() >= self.size || self.index >= self.limit) && self.batch.len() > 0 {
            let mut batch: Vec<(usize, RgbaImage)> = Vec::new();
            assert(pictures(batch@) == Seq::<(usize, Picture)>::empty());
            core::mem::swap(&mut batch, &mut self.batch);
            Some(batch)
        } else {
            None
        }
    }

    /// Takes the encoded picture of the next icon, or that there is none, and gives the batch that
    /// is to be sent. The icon that is taken is what the decoder gives for the data; where there
    /// are no data it is missing.
    pub fn accept_png(&mut self, data: Option<Vec<u8>>) -> (r: Option<Vec<(usize, RgbaImage)>>)
        requires
            old(self)@.index < old(self)@.limit,
        ensures
            exists|icon: Option<RgbaImage>|
                {
                    &&& #[trigger] takes_icon(old(self)@, final(self)@, r, shown(icon))
                    &&& match data {
                        Some(bytes) => may_decode_to(bytes, icon),
                        None => icon is None,
                    }
                    &&& icon matches Some(image) ==> has_all_pixels(image@)
                },
    {
        let icon = match data {
            Some(bytes) => run_decoder(decode_rgba, &bytes),
            None => None,
        };
        let ghost taken = icon;
        let r = self.accept_icon(icon);
        assert(takes_icon(old(self)@, self@, r, shown(taken)));
        r
    }
}

/// A loader loads the icons of all results up to the maximum, and no more: it asks for the next
/// exactly while there are results left, the maximum is not reached and no new query has come, and
/// asks for them in order.
pub proof fn all_icons_up_to_the_maximum_are_loaded(
    count: usize,
    max_icons: usize,
    size: usize,
    start: IconLoader,
    icons: Seq<Option<Picture>>,
    now: &IconLoader,
    query_changed: bool,
    next: Option<usize>,
)
    requires
        size > 0,
        icons.len() <= count,
        icons.len() <= max_icons,
        call_ensures(IconLoader::new, (count, max_icons, size), start),
        now@ == advanced_by(start@, icons),
        call_ensures(IconLoader::next_index, (now, query_changed), next),
    ensures
        start@.index == 0,
        start@.limit <= count,
        start@.limit <= max_icons,
        start@.limit == count || start@.limit == max_icons,
        start@.size == size,
        start@.batch.len() == 0,
        now@.index == icons.len(),
        next is Some <==> icons.len() < count && icons.len() < max_icons && !query_changed,
        next matches Some(index) ==> index == icons.len(),
{
    lemma_icons_go_out(start@, icons);
}

/// An icon that is taken goes to the end of what waits, with its place and as it is, and one that
/// is missing goes nowhere. Either way the loader is one place further. What waits is handed out,
/// whole, exactly where there is something and it is as much as a batch or the place was the last.
pub proof fn every_icon_is_taken_in(
    before: IconQueue,
    after: IconQueue,
    batch: Option<Vec<(usize, RgbaImage)>>,
    icon: Option<Picture>,
)
    requires
        takes_icon(before, after, batch, icon),
    ensures
        after.index == before.index + 1,
        after.limit == before.limit,
        after.size == before.size,
        ({
            let out = match batch {
                Some(sent) => pictures(sent@),
                None => after.batch,
            };
            &&& icon matches Some(picture) ==> out == before.batch.push(
                (before.index as usize, picture),
            )
            &&& icon is None ==> out == before.batch
            &&& batch is Some <==> out.len() > 0 && (out.len() >= before.size || after.index
                >= before.limit)
            &&& batch is Some ==> after.batch.len() == 0
        }),
{
}

/// The same holds of an icon that is handed to the loader, and of data that hold one: the icon is
/// then what the decoder gives for them, and where there are no data it is missing.
pub proof fn loaders_take_icons_and_data(
    loader: &mut IconLoader,
    icon: Option<RgbaImage>,
    batch: Option<Vec<(usize, RgbaImage)>>,
    other: &mut IconLoader,
    data: Option<Vec<u8>>,
    other_batch: Option<Vec<(usize, RgbaImage)>>,
)
    requires
        call_ensures(IconLoader::accept_icon, (loader, icon), batch),
        call_ensures(IconLoader::accept_png, (other, data), other_batch),
    ensures
        icon matches Some(image) ==> takes_icon(
            old(loader)@,
            final(loader)@,
            batch,
            Some((image.width, image.height, image.pixels@)),
        ),
        icon is None ==> takes_icon(old(loader)@, final(loader)@, batch, None),
        data is None ==> takes_icon(old(other)@, final(other)@, other_batch, None),
        data matches Some(bytes) ==> exists|found: Option<RgbaImage>|
            may_decode_to(bytes, found) && #[trigger] takes_icon(
                old(other)@,
                final(other)@,
                other_batch,
                shown(found),
            ) && (found matches Some(image) ==> has_all_pixels(image@)),
{
}

/// What is told of a batch is all of it: each icon's place, width, height and pixels.
pub proof fn pictures_are_told_apart(batch: Seq<(usize, RgbaImage)>, image: RgbaImage)
    ensures
        pictures(batch).len() == batch.len(),
        forall|i: int|
            0 <= i < batch.len() ==> #[trigger] pictures(batch)[i] == (
                batch[i].0,
                (batch[i].1.width, batch[i].1.height, batch[i].1.pixels@),
            ),
        shown(Some(image)) == Some((image.width, image.height, image.pixels@)),
        shown(None) is None,
{
}

/// The icons that go out are all that are there, in order, and each has the place that it came in.
pub proof fn every_icon_keeps_its_place(icons: Seq<Option<Picture>>)
    requires
        icons.len() <= usize::MAX,
    ensures
        placed(icons).map_values(|icon: (usize, Picture)| icon.1) == icons.filter(
            |icon: Option<Picture>| icon is Some,
        ).map_values(|icon: Option<Picture>| icon->0),
        forall|k: int|
            0 <= k < placed(icons).len() ==> (#[trigger] placed(icons)[k]).0 < icons.len()
                && icons[placed(icons)[k].0 as int] == Some(placed(icons)[k].1),
        forall|k: int, l: int|
            0 <= k < l < placed(icons).len() ==> (#[trigger] placed(icons)[k]).0 < (
            #[trigger] placed(icons)[l]).0,
    decreases icons.len(),
{
    reveal(Seq::filter);
    let some = |icon: Option<Picture>| icon is Some;
    let inner = |icon: Option<Picture>| icon->0;
    let second = |icon: (usize, Picture)| icon.1;
    if icons.len() > 0 {
        let before = icons.drop_last();
        every_icon_keeps_its_place(before);
        let rest = before.filter(some);
        if let Some(picture) = icons.last() {
            assert(rest.push(icons.last()).map_values(inner) =~= rest.map_values(inner).push(
                picture,
            ));
            assert(placed(icons).map_values(second) =~= placed(before).map_values(second).push(
                picture,
            ));
        }
        assert forall|k: int| 0 <= k < placed(icons).len() implies (
        #[trigger] placed(icons)[k]).0 < icons.len() && icons[placed(icons)[k].0 as int] == Some(
            placed(icons)[k].1,
        ) by {
            if k < placed(before).len() {
                assert(placed(icons)[k] == placed(before)[k]);
            }
        }
        assert forall|k: int, l: int| 0 <= k < l < placed(icons).len() implies (
        #[trigger] placed(icons)[k]).0 < (#[trigger] placed(icons)[l]).0 by {
            assert(placed(icons)[k] == placed(before)[k]);
            if l < placed(before).len() {
                assert(placed(icons)[l] == placed(before)[l]);
            }
        }
    } else {
        assert(placed(icons).map_values(second) =~= icons.filter(some).map_values(inner));
    }
}


/// What may be decoded has all its pixels.
pub proof fn what_may_be_decoded_has_all_its_pixels(data: Vec<u8>, icon: Option<RgbaImage>)
    requires
        may_decode_to(data, icon),
    ensures
        icon matches Some(image) ==> 4 * image.width * image.height <= image.pixels@.len(),
{
    lemma_decoded(data, icon);
}

/// What may be decoded is what the decoder gives.
proof fn lemma_decoded(data: Vec<u8>, icon: Option<RgbaImage>)
    requires
        may_decode_to(data, icon),
    ensures
        call_ensures(decode_rgba, (&data,), icon),
{
}


} // verus!
