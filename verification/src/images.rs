//! Backgrounds as text: a grid of pixels is shown as a grid of characters,
//! each chosen by the intensity of its pixel, dimmed by the opacity at which
//! the background is drawn.

use vstd::prelude::*;
use vstd::string::StringExecFns;
use crate::fraction::{Fraction, Ratio, lemma_floor_of_bounds};
use crate::model::{
    Crudable,
    first_named,
    lemma_first_named_is,
    lemma_first_named_none,
    string_views,
};

verus! {

/// Number of pixels, and of characters, in one row of a background.
pub const GRID_WIDTH: usize = 128;

/// Number of rows of a background.
pub const GRID_HEIGHT: usize = 32;

/// Shown in place of a background whose pixels have not arrived yet.
pub const BACKGROUND_PENDING_TEXT: &'static str = "no background yet";

/// Shown in place of a background that no entry of the gallery is named for.
pub const BACKGROUND_MISSING_TEXT: &'static str = "background not found";

/// One pixel: red, green, blue and alpha.
#[derive(Clone, Copy, Debug, PartialEq, Eq)]
pub struct Pixel {
    pub r: u8,
    pub g: u8,
    pub b: u8,
    pub a: u8,
}

/// The mathematical value of a [`Background`].
pub struct BackgroundView {
    pub name: Seq<char>,
    pub url: Seq<char>,
    pub color_channels: (usize, usize, usize),
}

/// A background image: the name slides refer to it by, where it is fetched
/// from, and the weight of the red, green and blue channels in its intensity.
#[derive(Debug, PartialEq, Eq)]
pub struct Background {
    pub name: String,
    pub url: String,
    pub color_channels: (usize, usize, usize),
}

impl View for Background {
    type V = BackgroundView;

    open spec fn view(&self) -> BackgroundView {
        BackgroundView { name: self.name@, url: self.url@, color_channels: self.color_channels }
    }
}

impl Clone for Background {
    fn clone(&self) -> (copy: Background)
        ensures
            copy@ == self@,
    {
        Background {
            name: self.name.clone(),
            url: self.url.clone(),
            color_channels: self.color_channels,
        }
    }
}

impl Crudable for Background {
    open spec fn name_in(v: BackgroundView) -> Seq<char> {
        v.name
    }

    open spec fn under_name(v: BackgroundView, name: Seq<char>) -> BackgroundView {
        BackgroundView { name, ..v }
    }

    fn name(&self) -> (name: String) {
        self.name.clone()
    }

    fn set_name(&mut self, new_name: String) {
        self.name = new_name;
    }

    fn default_name_prefix() -> (prefix: &'static str)
        ensures
            prefix@ == "background"@,
    {
        "background"
    }

    fn duplicate(&self) -> (copy: Background) {
        self.clone()
    }

    proof fn law_rename_touches_the_name_only(
        v: BackgroundView,
        first: Seq<char>,
        second: Seq<char>,
    ) {
    }
}

impl Background {
    /// A background fetched from `url` and named after it, with all three
    /// channels at full weight.
    pub fn from_url(url: String) -> (bg: Background)
        ensures
            bg@ == (BackgroundView { name: url@, url: url@, color_channels: (255, 255, 255) }),
    {
        Background { name: url.clone(), url, color_channels: (255, 255, 255) }
    }
}

/// Intensity of a pixel under channel weights: the plain mean of red, green
/// and blue when the three weights are equal, their weighted mean otherwise.
pub open spec fn intensity(weights: (usize, usize, usize), p: Pixel) -> int {
    if weights.0 == weights.1 && weights.1 == weights.2 {
        (p.r + p.g + p.b) / 3
    } else {
        (p.r * weights.0 + p.g * weights.1 + p.b * weights.2) / (weights.0 + weights.1
            + weights.2)
    }
}

/// An intensity is a byte.
pub proof fn lemma_intensity_is_byte(weights: (usize, usize, usize), p: Pixel)
    ensures
        0 <= intensity(weights, p) <= 255,
{
    let (w0, w1, w2) = (weights.0 as int, weights.1 as int, weights.2 as int);
    let (r, g, b) = (p.r as int, p.g as int, p.b as int);
    if !(weights.0 == weights.1 && weights.1 == weights.2) {
        let total = w0 + w1 + w2;
        let sum = r * w0 + g * w1 + b * w2;
        assert(0 <= sum <= 255 * total) by (nonlinear_arith)
            requires
                sum == r * w0 + g * w1 + b * w2,
                total == w0 + w1 + w2,
                0 <= r <= 255,
                0 <= g <= 255,
                0 <= b <= 255,
                0 <= w0,
                0 <= w1,
                0 <= w2,
        ;
        assert(0 <= sum / total <= 255) by (nonlinear_arith)
            requires
                0 <= sum <= 255 * total,
                0 < total,
        ;
    }
}

/// Intensity of pixel `p` under the channel weights of `bg`.
pub fn pixel_to_intensity(bg: &Background, p: &Pixel) -> (value: u8)
    ensures
        value == intensity(bg.color_channels, *p),
{
    let cc = bg.color_channels;
    proof {
        lemma_intensity_is_byte(cc, *p);
    }
    if cc.0 == cc.1 && cc.1 == cc.2 {
        let sum: u16 = p.r as u16 + p.g as u16 + p.b as u16;
        (sum / 3) as u8
    } else {
        proof {
            assert(p.r * cc.0 <= 255 * 0xffff_ffff_ffff_ffff && p.g * cc.1 <= 255
                * 0xffff_ffff_ffff_ffff && p.b * cc.2 <= 255 * 0xffff_ffff_ffff_ffff)
                by (nonlinear_arith)
                requires
                    0 <= p.r <= 255,
                    0 <= p.g <= 255,
                    0 <= p.b <= 255,
                    0 <= cc.0 <= 0xffff_ffff_ffff_ffff,
                    0 <= cc.1 <= 0xffff_ffff_ffff_ffff,
                    0 <= cc.2 <= 0xffff_ffff_ffff_ffff,
            ;
        }
        let total: u128 = cc.0 as u128 + cc.1 as u128 + cc.2 as u128;
        let sum: u128 = (p.r as u128) * (cc.0 as u128) + (p.g as u128) * (cc.1 as u128) + (
        p.b as u128) * (cc.2 as u128);
        (sum / total) as u8
    }
}

/// The characters that stand for intensities, from dark to bright.
pub open spec fn ramp() -> Seq<char> {
    seq![
        ' ', '.', '^', ',', ':', '_', '=', '~', '+', 'O', 'o', '*', '#', '&', '%', 'B', '@', '$',
    ]
}

/// Width of one band of intensities: 255 over the length of the ramp, rounded
/// down.
pub const RAMP_STEP: u8 = 14;

/// Position in the ramp of the character for `value`: one band of
/// `RAMP_STEP` intensities for each of the first sixteen characters, and the
/// last character for everything above.
pub open spec fn ramp_index(value: u8) -> int {
    if value < 16 * RAMP_STEP {
        value as int / RAMP_STEP as int
    } else {
        17
    }
}

/// The character for `value`.
pub open spec fn glyph(value: u8) -> char {
    ramp()[ramp_index(value)]
}

/// The character that stands for intensity `value`, as a string of length
/// one.
pub fn intensity_to_ascii(value: u8) -> (text: &'static str)
    ensures
        text@ == seq![glyph(value)],
{
    let ascii_chars: [&'static str; 18] = [
        " ",
        ".",
        "^",
        ",",
        ":",
        "_",
        "=",
        "~",
        "+",
        "O",
        "o",
        "*",
        "#",
        "&",
        "%",
        "B",
        "@",
        "$",
    ];
    proof {
        reveal_strlit(" ");
        reveal_strlit(".");
        reveal_strlit("^");
        reveal_strlit(",");
        reveal_strlit(":");
        reveal_strlit("_");
        reveal_strlit("=");
        reveal_strlit("~");
        reveal_strlit("+");
        reveal_strlit("O");
        reveal_strlit("o");
        reveal_strlit("*");
        reveal_strlit("#");
        reveal_strlit("&");
        reveal_strlit("%");
        reveal_strlit("B");
        reveal_strlit("@");
        reveal_strlit("$");
        assert forall|k: int| 0 <= k < 18 implies (#[trigger] ascii_chars@[k])@ == seq![ramp()[k]] by {
            assert(ascii_chars@[k]@ =~= seq![ramp()[k]]);
        }
    }
    let n_chars: u8 = 18;
    let step: u8 = 255u8 / n_chars;
    let mut i: u8 = 1;
    while i < n_chars - 1
        invariant
            1 <= i <= 17,
            n_chars == 18,
            step == RAMP_STEP,
            value >= step * (i - 1),
            forall|k: int| 0 <= k < 18 ==> (#[trigger] ascii_chars@[k])@ == seq![ramp()[k]],
        decreases 17 - i,
    {
        let comp: u8 = step * i;
        if value < comp {
            let idx: usize = (i - 1) as usize;
            assert(ramp_index(value) == idx);
            return ascii_chars[idx];
        }
        i += 1;
    }
    ascii_chars[(n_chars - 1) as usize]
}

/// The character for pixel `p` of a background with channel weights
/// `weights`, drawn at `opacity`: the intensity is scaled down by the
/// opacity before the character is chosen.
pub open spec fn shade(weights: (usize, usize, usize), opacity: Ratio, p: Pixel) -> char {
    glyph(opacity.floor_of(intensity(weights, p) as nat) as u8)
}

/// The two ends of the opacity: at zero every pixel is drawn blank, whatever
/// its colour, and at one every pixel is drawn at its full intensity.
pub proof fn law_opacity_ends(weights: (usize, usize, usize), p: Pixel)
    ensures
        shade(weights, Ratio::zero(), p) == ' ',
        shade(weights, Ratio::one(), p) == glyph(intensity(weights, p) as u8),
{
    lemma_intensity_is_byte(weights, p);
    lemma_floor_of_bounds(Ratio::zero(), intensity(weights, p) as nat);
    lemma_floor_of_bounds(Ratio::one(), intensity(weights, p) as nat);
}

/// What pixel `i` adds to the text: its character, and a line break after
/// every `GRID_WIDTH`-th pixel and after the last.
pub open spec fn cell(pixels: Seq<Pixel>, weights: (usize, usize, usize), opacity: Ratio, i: int)
    -> Seq<char> {
    if (i + 1) % (GRID_WIDTH as int) == 0 || i + 1 == pixels.len() {
        seq![shade(weights, opacity, pixels[i]), '\n']
    } else {
        seq![shade(weights, opacity, pixels[i])]
    }
}

/// The text for the first `k` pixels.
pub open spec fn ascii_rows(
    pixels: Seq<Pixel>,
    weights: (usize, usize, usize),
    opacity: Ratio,
    k: nat,
) -> Seq<char>
    decreases k,
{
    if k == 0 {
        Seq::<char>::empty()
    } else {
        ascii_rows(pixels, weights, opacity, (k - 1) as nat) + cell(
            pixels,
            weights,
            opacity,
            k - 1,
        )
    }
}

/// The text of a background: its pixels row by row, one character each, every
/// row of `GRID_WIDTH` characters ended by a line break, and so is a last
/// shorter row.
pub open spec fn ascii_art(pixels: Seq<Pixel>, weights: (usize, usize, usize), opacity: Ratio)
    -> Seq<char> {
    ascii_rows(pixels, weights, opacity, pixels.len())
}

/// The pixels of a background, row by row.
#[derive(Debug, PartialEq, Eq)]
pub struct BackgroundData {
    pub pixels: Vec<Pixel>,
}

impl Clone for BackgroundData {
    fn clone(&self) -> (copy: BackgroundData)
        ensures
            copy.pixels@ == self.pixels@,
    {
        BackgroundData { pixels: self.pixels.clone() }
    }
}

/// Renders the pixels in `data` as text at `opacity`, with the channel
/// weights of `bg`. At opacity zero every character is blank; at opacity one
/// each pixel shows at its full intensity.
pub fn convert_background_to_ascii(
    bg: &Background,
    data: &BackgroundData,
    opacity: Fraction,
) -> (text: String)
    ensures
        text@ == ascii_art(data.pixels@, bg.color_channels, opacity@),
{
    let mut text = String::new();
    let n = data.pixels.len();
    let mut i: usize = 0;
    while i < n
        invariant
            i <= n,
            n == data.pixels.len(),
            text@ == ascii_rows(data.pixels@, bg.color_channels, opacity@, i as nat),
        decreases n - i,
    {
        let full = pixel_to_intensity(bg, &data.pixels[i]);
        let _ = opacity.denominator();
        proof {
            lemma_floor_of_bounds(opacity@, full as nat);
        }
        let dimmed = opacity.floor_of(full as usize) as u8;
        let ghost before = text@;
        text.append(intensity_to_ascii(dimmed));
        if (i + 1) % GRID_WIDTH == 0 || i + 1 == n {
            proof {
                reveal_strlit("\n");
            }
            text.append("\n");
            assert("\n"@ =~= seq!['\n']);
        }
        assert(text@ =~= before + cell(data.pixels@, bg.color_channels, opacity@, i as int));
        i += 1;
    }
    text
}

/// The mathematical value of a [`BackgroundEntry`].
pub struct BackgroundEntryView {
    pub background: BackgroundView,
    pub requested: bool,
    pub pixels: Option<Seq<Pixel>>,
}

/// A background known to the gallery: whether its image has been asked for,
/// and its pixels once they have arrived.
#[derive(Debug, PartialEq, Eq)]
pub struct BackgroundEntry {
    pub background: Background,
    pub requested: bool,
    pub data: Option<BackgroundData>,
}

impl View for BackgroundEntry {
    type V = BackgroundEntryView;

    open spec fn view(&self) -> BackgroundEntryView {
        BackgroundEntryView {
            background: self.background@,
            requested: self.requested,
            pixels: match self.data {
                Some(data) => Some(data.pixels@),
                None => None,
            },
        }
    }
}

impl Clone for BackgroundEntry {
    fn clone(&self) -> (copy: BackgroundEntry)
        ensures
            copy@ == self@,
    {
        BackgroundEntry {
            background: self.background.clone(),
            requested: self.requested,
            data: match &self.data {
                Some(data) => Some(data.clone()),
                None => None,
            },
        }
    }
}

impl Crudable for BackgroundEntry {
    open spec fn name_in(v: BackgroundEntryView) -> Seq<char> {
        v.background.name
    }

    open spec fn under_name(v: BackgroundEntryView, name: Seq<char>) -> BackgroundEntryView {
        BackgroundEntryView { background: BackgroundView { name, ..v.background }, ..v }
    }

    fn name(&self) -> (name: String) {
        self.background.name.clone()
    }

    fn set_name(&mut self, new_name: String) {
        self.background.name = new_name;
    }

    fn default_name_prefix() -> (prefix: &'static str)
        ensures
            prefix@ == "background"@,
    {
        "background"
    }

    fn duplicate(&self) -> (copy: BackgroundEntry) {
        self.clone()
    }

    proof fn law_rename_touches_the_name_only(
        v: BackgroundEntryView,
        first: Seq<char>,
        second: Seq<char>,
    ) {
    }
}

impl BackgroundEntry {
    /// An entry for `background`, not asked for yet.
    pub fn new(background: Background) -> (entry: BackgroundEntry)
        ensures
            entry@ == (BackgroundEntryView {
                background: background@,
                requested: false,
                pixels: None,
            }),
    {
        BackgroundEntry { background, requested: false, data: None }
    }
}

/// The values of a list of gallery entries.
pub open spec fn entry_views(gallery: Seq<BackgroundEntry>) -> Seq<BackgroundEntryView> {
    gallery.map_values(|e: BackgroundEntry| e@)
}

/// The names of a list of gallery entries.
pub open spec fn entry_names(gallery: Seq<BackgroundEntryView>) -> Seq<Seq<char>> {
    gallery.map_values(|e: BackgroundEntryView| e.background.name)
}

/// The mathematical value of a [`RenderedBackground`].
pub enum RenderedBackgroundView {
    Ready(Seq<char>),
    Pending,
    NotFound,
}

/// What the gallery has for a background name.
#[derive(Debug, PartialEq, Eq)]
pub enum RenderedBackground {
    /// The background as text.
    Ready(String),
    /// The background is known, its pixels have not arrived.
    Pending,
    /// No background of that name is known.
    NotFound,
}

impl View for RenderedBackground {
    type V = RenderedBackgroundView;

    open spec fn view(&self) -> RenderedBackgroundView {
        match self {
            RenderedBackground::Ready(text) => RenderedBackgroundView::Ready(text@),
            RenderedBackground::Pending => RenderedBackgroundView::Pending,
            RenderedBackground::NotFound => RenderedBackgroundView::NotFound,
        }
    }
}

/// The background called `name`, drawn at `opacity`: the text of the first
/// entry of that name if its pixels are there, `Pending` if they are not, and
/// `NotFound` where no entry has that name.
pub open spec fn rendered_background(
    gallery: Seq<BackgroundEntryView>,
    name: Seq<char>,
    opacity: Ratio,
) -> RenderedBackgroundView {
    match first_named(entry_names(gallery), name) {
        None => RenderedBackgroundView::NotFound,
        Some(i) => match gallery[i].pixels {
            None => RenderedBackgroundView::Pending,
            Some(pixels) => RenderedBackgroundView::Ready(
                ascii_art(pixels, gallery[i].background.color_channels, opacity),
            ),
        },
    }
}

/// Finds the background called `name`: the position of the first entry of
/// that name.
pub fn find_background(gallery: &Vec<BackgroundEntry>, name: &String) -> (found: Option<usize>)
    ensures
        match found {
            Some(i) => first_named(entry_names(entry_views(gallery@)), name@) == Some(i as int) && i
                < gallery.len(),
            None => first_named(entry_names(entry_views(gallery@)), name@) is None,
        },
{
    let ghost names = entry_names(entry_views(gallery@));
    let mut i: usize = 0;
    while i < gallery.len()
        invariant
            i <= gallery.len(),
            names == entry_names(entry_views(gallery@)),
            names.len() == gallery.len(),
            forall|j: int| 0 <= j < i ==> names[j] != name@,
        decreases gallery.len() - i,
    {
        assert(names[i as int] == gallery@[i as int].background.name@);
        if gallery[i].background.name == *name {
            proof {
                lemma_first_named_is(names, name@, i as int);
            }
            return Some(i);
        }
        i += 1;
    }
    proof {
        lemma_first_named_none(names, name@);
    }
    None
}

/// Looks up the background called `name` and renders it at `opacity`.
pub fn get_rendered_background(
    gallery: &Vec<BackgroundEntry>,
    name: &String,
    opacity: Fraction,
) -> (found: RenderedBackground)
    ensures
        found@ == rendered_background(entry_views(gallery@), name@, opacity@),
{
    match find_background(gallery, name) {
        None => RenderedBackground::NotFound,
        Some(i) => match &gallery[i].data {
            None => RenderedBackground::Pending,
            Some(data) => RenderedBackground::Ready(
                convert_background_to_ascii(&gallery[i].background, data, opacity),
            ),
        },
    }
}

/// What the background editor did to a background.
#[derive(Debug, PartialEq, Eq)]
pub enum BackgroundEvent {
    Updated(Background),
}

impl Clone for BackgroundEvent {
    fn clone(&self) -> (copy: BackgroundEvent)
        ensures
            updates_of(seq![copy]) == updates_of(seq![*self]),
    {
        match self {
            BackgroundEvent::Updated(background) => {
                let copy = BackgroundEvent::Updated(background.clone());
                assert(updates_of(seq![copy]) =~= updates_of(seq![*self]));
                copy
            },
        }
    }
}

/// The gallery after one notification: every entry of the name of the
/// updated background holds the update, with the pixels it had.
pub open spec fn background_updated(gallery: Seq<BackgroundEntryView>, updated: BackgroundView)
    -> Seq<BackgroundEntryView> {
    gallery.map_values(
        |e: BackgroundEntryView| if e.background.name == updated.name {
            BackgroundEntryView { background: updated, ..e }
        } else {
            e
        },
    )
}

/// What the notifications of a batch update, in order of arrival.
pub open spec fn updates_of(events: Seq<BackgroundEvent>) -> Seq<BackgroundView> {
    events.map_values(
        |e: BackgroundEvent| match e {
            BackgroundEvent::Updated(background) => background@,
        },
    )
}

/// The gallery after a batch of updates, applied in order.
pub open spec fn backgrounds_updated(
    gallery: Seq<BackgroundEntryView>,
    updates: Seq<BackgroundView>,
) -> Seq<BackgroundEntryView>
    decreases updates.len(),
{
    if updates.len() == 0 {
        gallery
    } else {
        background_updated(backgrounds_updated(gallery, updates.drop_last()), updates.last())
    }
}

/// Applies a batch of notifications to the gallery, in order of arrival: an
/// updated background takes the place of every background of its name.
pub fn event_handler(events: &Vec<BackgroundEvent>, gallery: &mut Vec<BackgroundEntry>)
    ensures
        entry_views(final(gallery)@) == backgrounds_updated(
            entry_views(old(gallery)@),
            updates_of(events@),
        ),
{
    let ghost updates = updates_of(events@);
    let mut e: usize = 0;
    assert(updates.take(0) =~= Seq::<BackgroundView>::empty());
    while e < events.len()
        invariant
            e <= events.len(),
            updates == updates_of(events@),
            entry_views(gallery@) == backgrounds_updated(
                entry_views(old(gallery)@),
                updates.take(e as int),
            ),
        decreases events.len() - e,
    {
        proof {
            assert(updates.take(e + 1).drop_last() =~= updates.take(e as int));
        }
        let ghost before = gallery@;
        match &events[e] {
            BackgroundEvent::Updated(background) => {
                assert(updates.take(e + 1).last() == background@);
                let mut i: usize = 0;
                while i < gallery.len()
                    invariant
                        i <= gallery.len(),
                        gallery.len() == before.len(),
                        forall|k: int|
                            0 <= k < i ==> (#[trigger] gallery@[k])@ == (if before[k]@.background.name
                                == background@.name {
                                BackgroundEntryView { background: background@, ..before[k]@ }
                            } else {
                                before[k]@
                            }),
                        forall|k: int| i <= k < gallery.len() ==> gallery@[k] == before[k],
                    decreases gallery.len() - i,
                {
                    if gallery[i].background.name == background.name {
                        gallery[i].background = background.clone();
                    }
                    i += 1;
                }
                assert(entry_views(gallery@) =~= background_updated(
                    entry_views(before),
                    background@,
                ));
            },
        }
        e += 1;
    }
    assert(updates.take(events.len() as int) =~= updates);
}

/// The gallery after the image fetched from `url` has arrived: every entry
/// with that address holds its pixels. An image that no entry asked for
/// changes nothing.
pub open spec fn image_received(
    gallery: Seq<BackgroundEntryView>,
    url: Seq<char>,
    pixels: Seq<Pixel>,
) -> Seq<BackgroundEntryView> {
    gallery.map_values(
        |e: BackgroundEntryView| if e.background.url == url {
            BackgroundEntryView { pixels: Some(pixels), ..e }
        } else {
            e
        },
    )
}

/// Hands the pixels of the image fetched from `url` to every entry of the
/// gallery that has that address.
pub fn receive_image(gallery: &mut Vec<BackgroundEntry>, url: &String, pixels: &Vec<Pixel>)
    ensures
        entry_views(final(gallery)@) == image_received(entry_views(old(gallery)@), url@, pixels@),
{
    let mut i: usize = 0;
    while i < gallery.len()
        invariant
            i <= gallery.len(),
            gallery.len() == old(gallery).len(),
            forall|k: int|
                0 <= k < i ==> (#[trigger] gallery@[k])@ == (if old(gallery)@[k]@.background.url
                    == url@ {
                    BackgroundEntryView { pixels: Some(pixels@), ..old(gallery)@[k]@ }
                } else {
                    old(gallery)@[k]@
                }),
            forall|k: int| i <= k < gallery.len() ==> gallery@[k] == old(gallery)@[k],
        decreases gallery.len() - i,
    {
        if gallery[i].background.url == *url {
            gallery[i].data = Some(BackgroundData { pixels: pixels.clone() });
        }
        i += 1;
    }
    assert(entry_views(gallery@) =~= image_received(entry_views(old(gallery)@), url@, pixels@));
}

/// The addresses of the entries whose image has not been asked for, in the
/// order of the gallery.
pub open spec fn unrequested_urls(gallery: Seq<BackgroundEntryView>) -> Seq<Seq<char>>
    decreases gallery.len(),
{
    if gallery.len() == 0 {
        Seq::<Seq<char>>::empty()
    } else if gallery.last().requested {
        unrequested_urls(gallery.drop_last())
    } else {
        unrequested_urls(gallery.drop_last()).push(gallery.last().background.url)
    }
}

/// The gallery with every entry marked as asked for.
pub open spec fn all_requested(gallery: Seq<BackgroundEntryView>) -> Seq<BackgroundEntryView> {
    gallery.map_values(|e: BackgroundEntryView| BackgroundEntryView { requested: true, ..e })
}

/// Marks every entry of the gallery as asked for, and returns the addresses
/// of those that were not: the images to request now, each once.
pub fn auto_request_images(gallery: &mut Vec<BackgroundEntry>) -> (urls: Vec<String>)
    ensures
        string_views(urls@) == unrequested_urls(entry_views(old(gallery)@)),
        entry_views(final(gallery)@) == all_requested(entry_views(old(gallery)@)),
{
    let mut urls: Vec<String> = Vec::new();
    let mut i: usize = 0;
    assert(entry_views(old(gallery)@).take(0) =~= Seq::<BackgroundEntryView>::empty());
    assert(string_views(urls@) =~= Seq::<Seq<char>>::empty());
    while i < gallery.len()
        invariant
            i <= gallery.len(),
            gallery.len() == old(gallery).len(),
            string_views(urls@) == unrequested_urls(entry_views(old(gallery)@).take(i as int)),
            forall|k: int|
                0 <= k < i ==> (#[trigger] gallery@[k])@ == (BackgroundEntryView {
                    requested: true,
                    ..old(gallery)@[k]@
                }),
            forall|k: int| i <= k < gallery.len() ==> gallery@[k] == old(gallery)@[k],
        decreases gallery.len() - i,
    {
        proof {
            let views = entry_views(old(gallery)@);
            assert(views.take(i + 1).drop_last() =~= views.take(i as int));
            assert(views.take(i + 1).last() == old(gallery)@[i as int]@);
        }
        if !gallery[i].requested {
            let ghost before = urls@;
            urls.push(gallery[i].background.url.clone());
            assert(string_views(urls@) =~= string_views(before).push(
                old(gallery)@[i as int]@.background.url,
            ));
            gallery[i].requested = true;
        }
        i += 1;
    }
    assert(entry_views(old(gallery)@).take(gallery.len() as int) =~= entry_views(old(gallery)@));
    assert(entry_views(gallery@) =~= all_requested(entry_views(old(gallery)@)));
    urls
}

} // verus!
