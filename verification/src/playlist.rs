//! Playlist documents as the engine sees them.
//!
//! An HLS manifest parses either as a master playlist (a list of variant
//! streams) or as a media playlist (an ordered list of segments). The parsing
//! itself is delegated to the `m3u8_rs` crate behind trusted wrappers; the
//! types here carry the parts of the documents that the engine reads, and
//! [`select_variant`] is the verified choice of the variant whose bandwidth
//! lies closest to the configured target.

use vstd::prelude::*;

use crate::error::Error;

verus! {

/// One bitrate rendition referenced from a master playlist.
#[derive(Debug, Clone)]
pub struct Variant {
    /// Location of the variant's media playlist, possibly relative.
    pub uri: String,
    /// The variant's declared bandwidth, in bits per second.
    pub bandwidth: u64,
}

/// The mathematical value of a [`Variant`].
pub struct VariantModel {
    pub uri: Seq<char>,
    pub bandwidth: u64,
}

impl View for Variant {
    type V = VariantModel;

    open spec fn view(&self) -> VariantModel {
        VariantModel { uri: self.uri@, bandwidth: self.bandwidth }
    }
}

/// The values of a list of variants.
pub open spec fn variants_model(vs: Seq<Variant>) -> Seq<VariantModel> {
    vs.map_values(|v: Variant| v@)
}

/// One entry of a media playlist.
#[derive(Debug, Clone)]
pub struct SegmentEntry {
    /// Location of the segment, possibly relative to the media playlist URL.
    pub uri: String,
    /// Whether the entry carries a discontinuity marker.
    pub discontinuity: bool,
}

/// The mathematical value of a [`SegmentEntry`].
pub struct SegmentEntryModel {
    pub uri: Seq<char>,
    pub discontinuity: bool,
}

impl View for SegmentEntry {
    type V = SegmentEntryModel;

    open spec fn view(&self) -> SegmentEntryModel {
        SegmentEntryModel { uri: self.uri@, discontinuity: self.discontinuity }
    }
}

/// The values of a list of segment entries.
pub open spec fn entries_model(es: Seq<SegmentEntry>) -> Seq<SegmentEntryModel> {
    es.map_values(|e: SegmentEntry| e@)
}

/// A parsed media playlist: the parts of the document the engine walks.
#[derive(Debug, Clone)]
pub struct MediaPlaylistDoc {
    /// The sequence number of the first entry.
    pub media_sequence: u64,
    /// The entries, in document order.
    pub segments: Vec<SegmentEntry>,
    /// The playlist's own end-of-list flag.
    pub end_list: bool,
}

/// The mathematical value of a [`MediaPlaylistDoc`].
pub struct MediaPlaylistModel {
    pub media_sequence: u64,
    pub segments: Seq<SegmentEntryModel>,
    pub end_list: bool,
}

impl View for MediaPlaylistDoc {
    type V = MediaPlaylistModel;

    open spec fn view(&self) -> MediaPlaylistModel {
        MediaPlaylistModel {
            media_sequence: self.media_sequence,
            segments: entries_model(self.segments@),
            end_list: self.end_list,
        }
    }
}

/// A manifest document, dispatched once per manifest fetch.
#[derive(Debug, Clone)]
pub enum ManifestDoc {
    /// A master playlist and its variant streams.
    Master(Vec<Variant>),
    /// A media playlist: the manifest URL itself is the media URL.
    Media,
}

/// What a byte string holds when read as a manifest document.
pub enum ManifestModel {
    Master(Seq<VariantModel>),
    Media,
    Unparsed,
}

/// The manifest document a byte string parses to, as `m3u8_rs` reads it.
pub uninterp spec fn manifest_model_of(text: Seq<u8>) -> ManifestModel;

/// The media playlist a byte string parses to, as `m3u8_rs` reads it, or
/// `None` where it does not parse.
pub uninterp spec fn media_model_of(text: Seq<u8>) -> Option<MediaPlaylistModel>;

/// Relies on `m3u8_rs::parse_playlist`: tells a master playlist document from
/// a media playlist document, and yields each variant's location and declared
/// bandwidth. The result is a function of the document bytes alone.
#[verifier::external_body]
pub(crate) fn parse_manifest(text: &[u8]) -> (r: Result<ManifestDoc, Error>)
    ensures
        (match r {
            Ok(ManifestDoc::Master(vs)) => manifest_model_of(text@) == ManifestModel::Master(
                variants_model(vs@),
            ),
            Ok(ManifestDoc::Media) => manifest_model_of(text@) is Media,
            Err(e) => manifest_model_of(text@) is Unparsed && e == Error::ParseError,
        }),
{
    match m3u8_rs::parse_playlist(text) {
        Ok((_, m3u8_rs::Playlist::MasterPlaylist(pl))) => Ok(ManifestDoc::Master(
            pl.variants.into_iter().map(|v| Variant { uri: v.uri, bandwidth: v.bandwidth }).collect(),
        )),
        Ok((_, m3u8_rs::Playlist::MediaPlaylist(_))) => Ok(ManifestDoc::Media),
        Err(_) => Err(Error::ParseError),
    }
}

/// Relies on `m3u8_rs::parse_media_playlist`: yields the playlist's starting
/// sequence number, its entries in document order with their discontinuity
/// markers, and its end-of-list flag. The result is a function of the document
/// bytes alone.
#[verifier::external_body]
pub(crate) fn parse_media_playlist(text: &[u8]) -> (r: Result<MediaPlaylistDoc, Error>)
    ensures
        (match r {
            Ok(pl) => media_model_of(text@) == Some(pl@),
            Err(e) => media_model_of(text@) is None && e == Error::ParseError,
        }),
{
    match m3u8_rs::parse_media_playlist(text) {
        Ok((_, pl)) => Ok(MediaPlaylistDoc {
            media_sequence: pl.media_sequence,
            end_list: pl.end_list,
            segments: pl
                .segments
                .into_iter()
                .map(|s| SegmentEntry { uri: s.uri, discontinuity: s.discontinuity })
                .collect(),
        }),
        Err(_) => Err(Error::ParseError),
    }
}

/// How far a variant's bandwidth lies from the target.
pub open spec fn bw_distance(bw: u64, target: u64) -> int {
    if bw >= target {
        bw - target
    } else {
        target - bw
    }
}

/// The variant selected among the first `n`: the first one whose bandwidth
/// distance to the target is minimal.
pub open spec fn selected_in_prefix(vs: Seq<VariantModel>, target: u64, n: int) -> int
    decreases n,
{
    if n <= 1 {
        0
    } else {
        let prev = selected_in_prefix(vs, target, n - 1);
        if bw_distance(vs[n - 1].bandwidth, target) < bw_distance(vs[prev].bandwidth, target) {
            n - 1
        } else {
            prev
        }
    }
}

/// The variant the engine selects from a master playlist.
pub open spec fn selected_variant_idx(vs: Seq<VariantModel>, target: u64) -> int {
    selected_in_prefix(vs, target, vs.len() as int)
}

proof fn lemma_selected_in_prefix_bounds(vs: Seq<VariantModel>, target: u64, n: int)
    requires
        1 <= n,
    ensures
        0 <= selected_in_prefix(vs, target, n) < n,
    decreases n,
{
    if n > 1 {
        lemma_selected_in_prefix_bounds(vs, target, n - 1);
    }
}

/// The selection law: the selected variant's bandwidth distance to the target
/// is minimal among all variants, and every variant standing before it in the
/// document lies strictly farther — ties go to the first one encountered.
pub proof fn lemma_selected_variant_minimal(vs: Seq<VariantModel>, target: u64)
    requires
        vs.len() > 0,
    ensures
        0 <= selected_variant_idx(vs, target) < vs.len(),
        forall|j: int|
            0 <= j < vs.len() ==> bw_distance(vs[selected_variant_idx(vs, target)].bandwidth, target)
                <= bw_distance(#[trigger] vs[j].bandwidth, target),
        forall|j: int|
            0 <= j < selected_variant_idx(vs, target) ==> bw_distance(
                #[trigger] vs[j].bandwidth,
                target,
            ) > bw_distance(vs[selected_variant_idx(vs, target)].bandwidth, target),
{
    lemma_selected_prefix_minimal(vs, target, vs.len() as int);
}

proof fn lemma_selected_prefix_minimal(vs: Seq<VariantModel>, target: u64, n: int)
    requires
        1 <= n,
    ensures
        0 <= selected_in_prefix(vs, target, n) < n,
        forall|j: int|
            0 <= j < n ==> bw_distance(vs[selected_in_prefix(vs, target, n)].bandwidth, target)
                <= bw_distance(#[trigger] vs[j].bandwidth, target),
        forall|j: int|
            0 <= j < selected_in_prefix(vs, target, n) ==> bw_distance(
                #[trigger] vs[j].bandwidth,
                target,
            ) > bw_distance(vs[selected_in_prefix(vs, target, n)].bandwidth, target),
    decreases n,
{
    if n > 1 {
        lemma_selected_prefix_minimal(vs, target, n - 1);
    }
}

/// Select the variant minimizing `|bandwidth - target|`, ties broken by
/// document order; a master playlist without variants has none to offer.
pub fn select_variant(variants: &Vec<Variant>, target: u64) -> (r: Result<usize, Error>)
    ensures
        (match r {
            Ok(i) => variants@.len() > 0 && i == selected_variant_idx(
                variants_model(variants@),
                target,
            ),
            Err(e) => variants@.len() == 0 && e == Error::NoVariantStream,
        }),
{
    let n = variants.len();

    if n == 0 {
        return Err(Error::NoVariantStream);
    }

    let ghost model = variants_model(variants@);
    let mut best: usize = 0;
    let mut best_dist: u64 = distance_to(variants[0].bandwidth, target);
    let mut i: usize = 1;

    while i < n
        invariant
            1 <= i <= n,
            n == variants@.len(),
            model == variants_model(variants@),
            best < i,
            best == selected_in_prefix(model, target, i as int),
            best_dist == bw_distance(model[best as int].bandwidth, target),
        decreases n - i,
    {
        let d = distance_to(variants[i].bandwidth, target);

        proof {
            reveal_with_fuel(selected_in_prefix, 2);
            assert(model[i as int] == variants@[i as int]@);
        }

        if d < best_dist {
            best = i;
            best_dist = d;
        }

        i += 1;
    }

    Ok(best)
}

/// The absolute difference of a bandwidth and the target.
fn distance_to(bw: u64, target: u64) -> (d: u64)
    ensures
        d == bw_distance(bw, target),
{
    if bw >= target {
        bw - target
    } else {
        target - bw
    }
}

} // verus!
