//! The live state of one channel's playback and its media-playlist walk.
//!
//! A [`Session`] is created on a channel change and discarded on the next
//! one. The engine drives it step by step: [`Session::next_step`] says
//! whether to fetch a pending segment, refresh the media playlist, or report
//! the stream finished; [`Session::change_channel`] resolves a manifest to
//! the media playlist URL; [`Session::refresh_from_text`] walks a refreshed
//! media playlist, enqueueing exactly the entries not yet processed.

use std::collections::VecDeque;

use vstd::prelude::*;

use crate::error::Error;
use crate::playlist::{
    manifest_model_of, media_model_of, selected_variant_idx, variants_model, ManifestDoc,
    ManifestModel, MediaPlaylistDoc, MediaPlaylistModel, SegmentEntryModel,
};
use crate::playlist::{parse_manifest, parse_media_playlist, select_variant};
use crate::resolve::{resolve_model, resolve_uri};

verus! {

/// The values of a list of URL strings.
pub open spec fn strings_model(ss: Seq<String>) -> Seq<Seq<char>> {
    ss.map_values(|s: String| s@)
}

/// The media playlist URL a channel change settles on, from the manifest
/// document and the URL it was fetched from: a media playlist document is
/// its own rendition, a master playlist offers the variant closest to the
/// target bandwidth, resolved against the manifest URL.
pub open spec fn manifest_outcome(doc: ManifestModel, manifest_url: Seq<char>, target: u64) -> Result<
    Seq<char>,
    Error,
> {
    match doc {
        ManifestModel::Unparsed => Err(Error::ParseError),
        ManifestModel::Media => Ok(manifest_url),
        ManifestModel::Master(vs) => if vs.len() == 0 {
            Err(Error::NoVariantStream)
        } else {
            match resolve_model(manifest_url, vs[selected_variant_idx(vs, target)].uri) {
                Some(u) => Ok(u),
                None => Err(Error::InvalidUrl),
            }
        },
    }
}

/// The outcome of one media-playlist walk.
pub enum WalkModel {
    /// A discontinuity marker stopped the walk; it holds the resolved
    /// locations appended before the marker, in order.
    Disc(Seq<Seq<char>>),
    /// A fresh entry's location failed to resolve; it holds the resolved
    /// locations appended before that entry, in order.
    Fail(Seq<Seq<char>>),
    /// The walk covered every entry: the resolved locations of the fresh
    /// entries, and the counter one past the last entry seen.
    Done(Seq<Seq<char>>, int),
}

/// The same walk outcome with locations appended in front.
pub open spec fn walk_prepend(pre: Seq<Seq<char>>, w: WalkModel) -> WalkModel {
    match w {
        WalkModel::Disc(app) => WalkModel::Disc(pre + app),
        WalkModel::Fail(app) => WalkModel::Fail(pre + app),
        WalkModel::Done(app, ns) => WalkModel::Done(pre + app, ns),
    }
}

/// The walk over a media playlist's entries, with a running sequence counter
/// starting at `run`: a discontinuity ends the stream at once; an entry
/// numbered at or above `threshold` (the session's last-processed number) is
/// fresh and its location is appended, resolved against `base`; every entry
/// seen advances the counter.
pub open spec fn walk_model(
    entries: Seq<SegmentEntryModel>,
    run: int,
    threshold: int,
    base: Seq<char>,
) -> WalkModel
    decreases entries.len(),
{
    if entries.len() == 0 {
        WalkModel::Done(Seq::empty(), run)
    } else if entries[0].discontinuity {
        WalkModel::Disc(Seq::empty())
    } else if run >= threshold {
        match resolve_model(base, entries[0].uri) {
            Some(u) => walk_prepend(
                seq![u],
                walk_model(entries.drop_first(), run + 1, threshold, base),
            ),
            None => WalkModel::Fail(Seq::empty()),
        }
    } else {
        walk_model(entries.drop_first(), run + 1, threshold, base)
    }
}

proof fn lemma_walk_prepend_assoc(a: Seq<Seq<char>>, b: Seq<Seq<char>>, w: WalkModel)
    ensures
        walk_prepend(a, walk_prepend(b, w)) == walk_prepend(a + b, w),
{
    match w {
        WalkModel::Disc(app) => {
            assert(a + (b + app) =~= (a + b) + app);
        },
        WalkModel::Fail(app) => {
            assert(a + (b + app) =~= (a + b) + app);
        },
        WalkModel::Done(app, ns) => {
            assert(a + (b + app) =~= (a + b) + app);
        },
    }
}

/// How one walk outcome changes a session: the appended locations join the
/// pending list in order; a completed walk adopts the playlist's end flag
/// and leaves the counter one past the last entry; a discontinuity sets the
/// end flag whatever the playlist says; a resolution failure reports
/// [`Error::InvalidUrl`] and leaves counter and end flag alone.
pub open spec fn refresh_post(
    pre: SessionModel,
    m: MediaPlaylistModel,
    post: SessionModel,
    r: Result<(), Error>,
) -> bool {
    &&& post.media_url == pre.media_url
    &&& (match walk_model(m.segments, m.media_sequence as int, pre.seq as int, pre.media_url) {
        WalkModel::Disc(app) => r is Ok && post.segments == pre.segments + app && post.end_list
            == true && post.seq == pre.seq,
        WalkModel::Fail(app) => r == Err::<(), Error>(Error::InvalidUrl) && post.segments
            == pre.segments + app && post.end_list == pre.end_list && post.seq == pre.seq,
        WalkModel::Done(app, ns) => r is Ok && post.segments == pre.segments + app
            && post.end_list == m.end_list && post.seq == ns,
    })
}

/// Per-session playback state.
pub struct Session {
    /// URL of the media playlist currently walked.
    pub media_url: String,
    /// Resolved segment URLs not yet fetched, oldest first.
    pub segments: VecDeque<String>,
    /// One past the highest sequence number processed so far.
    pub seq: u64,
    /// Whether the end of the stream was reached (end-of-list tag or
    /// discontinuity marker).
    pub end_list: bool,
}

/// The mathematical value of a [`Session`].
pub struct SessionModel {
    pub media_url: Seq<char>,
    pub segments: Seq<Seq<char>>,
    pub seq: u64,
    pub end_list: bool,
}

impl View for Session {
    type V = SessionModel;

    open spec fn view(&self) -> SessionModel {
        SessionModel {
            media_url: self.media_url@,
            segments: strings_model(self.segments@),
            seq: self.seq,
            end_list: self.end_list,
        }
    }
}

/// What the engine should do next with a session.
#[derive(Clone, Copy, Debug, PartialEq, Eq, Structural)]
pub enum EngineStep {
    /// Pop the front pending segment and fetch it.
    Fetch,
    /// Refresh the media playlist.
    Refresh,
    /// Pending list empty and end of stream reached: a new channel is needed.
    Finished,
}

impl Session {
    /// A fresh session: nothing pending, nothing processed, no media URL yet.
    pub fn new() -> (s: Session)
        ensures
            s@.media_url == Seq::<char>::empty(),
            s@.segments == Seq::<Seq<char>>::empty(),
            s@.seq == 0,
            s@.end_list == false,
    {
        let s = Session {
            media_url: String::new(),
            segments: VecDeque::new(),
            seq: 0,
            end_list: false,
        };
        proof {
            assert(strings_model(s.segments@) =~= Seq::<Seq<char>>::empty());
        }
        s
    }

    /// What to do next, from the session state alone: fetch while segments
    /// are pending, refresh while the stream has not ended, otherwise report
    /// the session finished.
    pub fn next_step(&self) -> (s: EngineStep)
        ensures
            (match s {
                EngineStep::Fetch => self@.segments.len() > 0,
                EngineStep::Refresh => self@.segments.len() == 0 && !self@.end_list,
                EngineStep::Finished => self@.segments.len() == 0 && self@.end_list,
            }),
    {
        if self.segments.len() == 0 {
            if self.end_list {
                EngineStep::Finished
            } else {
                EngineStep::Refresh
            }
        } else {
            EngineStep::Fetch
        }
    }

    /// Point the session at a new channel from its fetched manifest: pick
    /// the media playlist URL that [`manifest_outcome`] names and reset the
    /// walk (sequence number zero, no pending segments, end flag cleared).
    /// On failure the session is left untouched.
    pub fn change_channel(&mut self, manifest_url: &str, manifest_text: &[u8], target: u64) -> (r:
        Result<(), Error>)
        ensures
            (match r {
                Ok(()) => manifest_outcome(
                    manifest_model_of(manifest_text@),
                    manifest_url@,
                    target,
                ) == Ok::<Seq<char>, Error>(final(self)@.media_url)
                    && final(self)@.segments == Seq::<Seq<char>>::empty()
                    && final(self)@.seq == 0 && final(self)@.end_list == false,
                Err(e) => manifest_outcome(
                    manifest_model_of(manifest_text@),
                    manifest_url@,
                    target,
                ) == Err::<Seq<char>, Error>(e) && *final(self) == *old(self),
            }),
    {
        let media_url = match parse_manifest(manifest_text) {
            Err(e) => {
                return Err(e);
            },
            Ok(ManifestDoc::Media) => manifest_url.to_owned(),
            Ok(ManifestDoc::Master(variants)) => {
                let i = match select_variant(&variants, target) {
                    Err(e) => {
                        return Err(e);
                    },
                    Ok(i) => i,
                };
                proof {
                    crate::playlist::lemma_selected_variant_minimal(
                        variants_model(variants@),
                        target,
                    );
                    assert(variants_model(variants@)[i as int] == variants@[i as int]@);
                }
                match resolve_uri(manifest_url, variants[i].uri.as_str()) {
                    Err(e) => {
                        return Err(e);
                    },
                    Ok(u) => u,
                }
            },
        };

        self.end_list = false;
        self.media_url = media_url;
        self.segments.clear();
        self.seq = 0;

        proof {
            assert(strings_model(self.segments@) =~= Seq::<Seq<char>>::empty());
        }

        Ok(())
    }

    /// Walk a refreshed media playlist document: append the locations of the
    /// entries not yet processed, advance the sequence counter, and set the
    /// end flag on the playlist's end-of-list tag or on a discontinuity.
    pub fn apply_playlist(&mut self, pl: &MediaPlaylistDoc) -> (r: Result<(), Error>)
        requires
            pl@.media_sequence + pl@.segments.len() <= u64::MAX,
        ensures
            refresh_post(old(self)@, pl@, final(self)@, r),
    {
        let ghost entries = pl@.segments;
        let ghost thr = self.seq as int;
        let ghost base = self.media_url@;
        let ghost mut appended: Seq<Seq<char>> = Seq::empty();

        let n = pl.segments.len();
        let mut run: u64 = pl.media_sequence;
        let mut i: usize = 0;

        proof {
            assert(entries.subrange(0, n as int) =~= entries);
            assert(strings_model(self.segments@) + appended =~= strings_model(self.segments@));
        }

        while i < n
            invariant
                0 <= i <= n,
                n == entries.len(),
                entries == pl@.segments,
                pl@.media_sequence + n <= u64::MAX,
                run == pl@.media_sequence + i,
                thr == old(self)@.seq as int,
                base == old(self)@.media_url,
                self.seq == old(self).seq,
                self.end_list == old(self).end_list,
                self.media_url == old(self).media_url,
                strings_model(self.segments@) == old(self)@.segments + appended,
                walk_model(entries, pl@.media_sequence as int, thr, base) == walk_prepend(
                    appended,
                    walk_model(entries.subrange(i as int, n as int), run as int, thr, base),
                ),
            decreases n - i,
        {
            proof {
                assert(entries.subrange(i as int, n as int).drop_first() =~= entries.subrange(
                    i + 1,
                    n as int,
                ));
                assert(entries.subrange(i as int, n as int)[0] == entries[i as int]);
            }

            let entry = &pl.segments[i];

            if entry.discontinuity {
                self.end_list = true;
                proof {
                    assert(walk_model(
                        entries.subrange(i as int, n as int),
                        run as int,
                        thr,
                        base,
                    ) == WalkModel::Disc(Seq::<Seq<char>>::empty()));
                    assert(appended + Seq::<Seq<char>>::empty() =~= appended);
                }
                return Ok(());
            }

            if run >= self.seq {
                match resolve_uri(self.media_url.as_str(), entry.uri.as_str()) {
                    Ok(u) => {
                        let ghost prev = strings_model(self.segments@);
                        let ghost uv = u@;
                        self.segments.push_back(u);
                        proof {
                            assert(strings_model(self.segments@) =~= prev.push(uv));
                            lemma_walk_prepend_assoc(
                                appended,
                                seq![uv],
                                walk_model(entries.subrange(i + 1, n as int), run + 1, thr, base),
                            );
                            assert(appended + seq![uv] =~= appended.push(uv));
                            appended = appended.push(uv);
                        }
                    },
                    Err(e) => {
                        proof {
                            assert(walk_model(
                                entries.subrange(i as int, n as int),
                                run as int,
                                thr,
                                base,
                            ) == WalkModel::Fail(Seq::<Seq<char>>::empty()));
                            assert(appended + Seq::<Seq<char>>::empty() =~= appended);
                        }
                        return Err(e);
                    },
                }
            }

            run = run + 1;
            i += 1;
        }

        proof {
            assert(entries.subrange(n as int, n as int) =~= Seq::<SegmentEntryModel>::empty());
            assert(walk_model(Seq::<SegmentEntryModel>::empty(), run as int, thr, base)
                == WalkModel::Done(Seq::<Seq<char>>::empty(), run as int));
            assert(appended + Seq::<Seq<char>>::empty() =~= appended);
        }

        self.seq = run;
        self.end_list = pl.end_list;
        Ok(())
    }

    /// Walk a refreshed media playlist handed over as raw document bytes:
    /// parse it, then proceed as [`Session::apply_playlist`]. A document
    /// that does not parse is rejected with [`Error::ParseError`], as is one
    /// whose numbering would overflow the sequence counter; either way the
    /// session is left untouched.
    pub fn refresh_from_text(&mut self, text: &[u8]) -> (r: Result<(), Error>)
        ensures
            (match media_model_of(text@) {
                Option::None => r == Err::<(), Error>(Error::ParseError)
                    && *final(self) == *old(self),
                Option::Some(m) => if m.media_sequence + m.segments.len() > u64::MAX {
                    r == Err::<(), Error>(Error::ParseError) && *final(self) == *old(self)
                } else {
                    refresh_post(old(self)@, m, final(self)@, r)
                },
            }),
    {
        let pl = match parse_media_playlist(text) {
            Err(e) => {
                return Err(e);
            },
            Ok(pl) => pl,
        };

        let len = pl.segments.len() as u64;

        if pl.media_sequence > u64::MAX - len {
            return Err(Error::ParseError);
        }

        self.apply_playlist(&pl)
    }

    /// Pop the oldest pending segment URL, if any; delivery order is the
    /// order in which the walk appended them.
    pub fn pop_segment(&mut self) -> (r: Option<String>)
        ensures
            final(self)@.media_url == old(self)@.media_url,
            final(self)@.seq == old(self)@.seq,
            final(self)@.end_list == old(self)@.end_list,
            (match r {
                Some(u) => old(self)@.segments.len() > 0 && u@ == old(self)@.segments[0]
                    && final(self)@.segments == old(self)@.segments.drop_first(),
                None => old(self)@.segments.len() == 0
                    && final(self)@.segments == old(self)@.segments,
            }),
    {
        let ghost pre = self.segments@;
        let r = self.segments.pop_front();
        proof {
            if pre.len() > 0 {
                assert(strings_model(self.segments@) =~= strings_model(pre).drop_first());
            } else {
                assert(strings_model(self.segments@) =~= strings_model(pre));
            }
        }
        r
    }
}

/// The resolved locations of exactly the entries whose running sequence
/// number is at or above the threshold, in document order.
pub open spec fn fresh_resolved(
    entries: Seq<SegmentEntryModel>,
    run: int,
    threshold: int,
    base: Seq<char>,
) -> Seq<Seq<char>>
    decreases entries.len(),
{
    if entries.len() == 0 {
        Seq::empty()
    } else {
        let rest = fresh_resolved(entries.drop_first(), run + 1, threshold, base);
        if run >= threshold {
            seq![resolve_model(base, entries[0].uri)->Some_0] + rest
        } else {
            rest
        }
    }
}

/// The deduplication law. On a refresh free of discontinuities whose fresh
/// locations all resolve, the walk completes; it appends exactly the
/// resolutions of the entries numbered at or above the session's
/// last-processed number — an entry numbered strictly below it is never
/// enqueued — and it leaves the counter one past the last entry seen, even
/// where every entry was filtered out.
pub proof fn lemma_walk_dedup(
    entries: Seq<SegmentEntryModel>,
    run: int,
    threshold: int,
    base: Seq<char>,
)
    requires
        forall|i: int| 0 <= i < entries.len() ==> !(#[trigger] entries[i]).discontinuity,
        forall|i: int|
            0 <= i < entries.len() && run + i >= threshold ==> (#[trigger] resolve_model(
                base,
                entries[i].uri,
            )) is Some,
    ensures
        walk_model(entries, run, threshold, base) == WalkModel::Done(
            fresh_resolved(entries, run, threshold, base),
            run + entries.len(),
        ),
    decreases entries.len(),
{
    if entries.len() > 0 {
        let tail = entries.drop_first();

        assert forall|i: int| 0 <= i < tail.len() implies !(#[trigger] tail[i]).discontinuity by {
            assert(tail[i] == entries[i + 1]);
        }
        assert forall|i: int|
            0 <= i < tail.len() && (run + 1) + i >= threshold implies (#[trigger] resolve_model(
            base,
            tail[i].uri,
        )) is Some by {
            assert(tail[i] == entries[i + 1]);
        }

        lemma_walk_dedup(tail, run + 1, threshold, base);

        assert(!entries[0].discontinuity);

        if run >= threshold {
            assert(resolve_model(base, entries[0].uri) is Some);
        }
    }
}

/// The discontinuity law. Where the entry at position `n` carries a
/// discontinuity marker and every earlier entry is fresh and resolves, the
/// walk stops at the marker with exactly the first `n` locations appended —
/// whatever entries follow and whatever the playlist's own end-of-list flag
/// says. Together with [`refresh_post`] this sets the session's end flag.
pub proof fn lemma_discontinuity_truncates(
    entries: Seq<SegmentEntryModel>,
    run: int,
    threshold: int,
    base: Seq<char>,
    n: int,
)
    requires
        0 <= n < entries.len(),
        entries[n].discontinuity,
        forall|i: int| 0 <= i < n ==> !(#[trigger] entries[i]).discontinuity,
        threshold <= run,
        forall|i: int|
            0 <= i < n ==> (#[trigger] resolve_model(base, entries[i].uri)) is Some,
    ensures
        walk_model(entries, run, threshold, base) == WalkModel::Disc(
            Seq::new(n as nat, |i: int| resolve_model(base, entries[i].uri)->Some_0),
        ),
    decreases n,
{
    if n == 0 {
        assert(Seq::new(0, |i: int| resolve_model(base, entries[i].uri)->Some_0)
            =~= Seq::<Seq<char>>::empty());
    } else {
        let tail = entries.drop_first();

        assert forall|i: int| 0 <= i < n - 1 implies !(#[trigger] tail[i]).discontinuity by {
            assert(tail[i] == entries[i + 1]);
        }
        assert forall|i: int|
            0 <= i < n - 1 implies (#[trigger] resolve_model(base, tail[i].uri)) is Some by {
            assert(tail[i] == entries[i + 1]);
        }
        assert(tail[n - 1] == entries[n]);

        lemma_discontinuity_truncates(tail, run + 1, threshold, base, n - 1);

        assert(!entries[0].discontinuity);
        assert(resolve_model(base, entries[0].uri) is Some);

        let u0 = resolve_model(base, entries[0].uri)->Some_0;
        assert(seq![u0] + Seq::new((n - 1) as nat, |i: int| resolve_model(base, tail[i].uri)->Some_0)
            =~= Seq::new(n as nat, |i: int| resolve_model(base, entries[i].uri)->Some_0));
    }
}

/// Accept a downloaded segment body, rejecting an empty one as a transient
/// server fault.
pub fn check_segment(bytes: Vec<u8>) -> (r: Result<Vec<u8>, Error>)
    ensures
        (match r {
            Ok(b) => bytes@.len() > 0 && b == bytes,
            Err(e) => bytes@.len() == 0 && e == Error::EmptySegment,
        }),
{
    if bytes.len() == 0 {
        Err(Error::EmptySegment)
    } else {
        Ok(bytes)
    }
}

} // verus!
