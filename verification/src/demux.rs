//! What demultiplexing a container gives, and the types that can be
//! demultiplexed.

use crate::errors::{ErrorKind, ErrorView, GICSError, GICSResult};
use vstd::prelude::*;

verus! {

/// One audio stream of a container, as mathematics.
pub ghost struct TrackView {
    pub chno: u8,
    pub data: Seq<u8>,
}

/// The streams of a container, as mathematics: the video stream, and the
/// audio streams in the order in which their channels first occur.
pub ghost struct Streams {
    pub video: Seq<u8>,
    pub audio: Seq<TrackView>,
}

impl Streams {
    /// No video byte and no audio stream.
    pub open spec fn empty() -> Streams {
        Streams { video: Seq::empty(), audio: Seq::empty() }
    }

    /// The number of audio bytes, all streams together.
    pub open spec fn audio_bytes(self) -> nat {
        total_bytes(self.audio)
    }
}

/// The number of bytes that the tracks hold together.
pub open spec fn total_bytes(tracks: Seq<TrackView>) -> nat
    decreases tracks.len(),
{
    if tracks.len() == 0 {
        0
    } else {
        total_bytes(tracks.drop_last()) + tracks.last().data.len()
    }
}

/// The index of the first track at or after `from` that belongs to the
/// channel `chno`, or the number of tracks when there is none.
pub open spec fn first_track(tracks: Seq<TrackView>, chno: u8, from: int) -> int
    decreases tracks.len() - from,
{
    if from < 0 || from >= tracks.len() {
        tracks.len() as int
    } else if tracks[from].chno == chno {
        from
    } else {
        first_track(tracks, chno, from + 1)
    }
}

/// The tracks after `body` was added to the channel `chno`: at the end of
/// its track, or as a new last track when the channel has none.
pub open spec fn with_audio(tracks: Seq<TrackView>, chno: u8, body: Seq<u8>) -> Seq<TrackView> {
    let i = first_track(tracks, chno, 0);
    if i < tracks.len() {
        tracks.update(i, TrackView { chno, data: tracks[i].data + body })
    } else {
        tracks.push(TrackView { chno, data: body })
    }
}

/// Replacing one track changes the total by the difference of the two
/// lengths.
pub proof fn lemma_total_update(tracks: Seq<TrackView>, i: int, t: TrackView)
    requires
        0 <= i < tracks.len(),
    ensures
        total_bytes(tracks.update(i, t)) == total_bytes(tracks) - tracks[i].data.len()
            + t.data.len(),
    decreases tracks.len(),
{
    let last = tracks.len() - 1;
    if i == last {
        assert(tracks.update(i, t).drop_last() =~= tracks.drop_last());
    } else {
        assert(tracks.update(i, t).drop_last() =~= tracks.drop_last().update(i, t));
        lemma_total_update(tracks.drop_last(), i, t);
    }
}

/// Adding a body to the tracks adds its length to their total.
pub proof fn lemma_total_with_audio(tracks: Seq<TrackView>, chno: u8, body: Seq<u8>)
    ensures
        total_bytes(with_audio(tracks, chno, body)) == total_bytes(tracks) + body.len(),
{
    let i = first_track(tracks, chno, 0);
    lemma_first_track_range(tracks, chno, 0);
    if i < tracks.len() {
        lemma_total_update(tracks, i, TrackView { chno, data: tracks[i].data + body });
    } else {
        assert(tracks.push(TrackView { chno, data: body }).drop_last() =~= tracks);
    }
}

/// The first track of a channel lies between the start of the search and the
/// number of tracks.
pub proof fn lemma_first_track_range(tracks: Seq<TrackView>, chno: u8, from: int)
    requires
        0 <= from,
    ensures
        from <= first_track(tracks, chno, from) || first_track(tracks, chno, from)
            == tracks.len(),
        0 <= first_track(tracks, chno, from) <= tracks.len(),
    decreases tracks.len() - from,
{
    if from < tracks.len() && tracks[from].chno != chno {
        lemma_first_track_range(tracks, chno, from + 1);
    }
}

/// One audio stream of a container: the channel number and the bytes.
pub struct AudioTrack {
    chno: u8,
    data: Vec<u8>,
}

impl View for AudioTrack {
    type V = TrackView;

    closed spec fn view(&self) -> TrackView {
        TrackView { chno: self.chno, data: self.data@ }
    }
}

impl AudioTrack {
    /// A stream that starts with `data`.
    pub fn new(chno: u8, data: Vec<u8>) -> (t: Self)
        ensures
            t@ == (TrackView { chno, data: data@ }),
    {
        Self { chno, data }
    }

    /// Adds `body` at the end of the stream.
    pub fn append(&mut self, body: &mut Vec<u8>)
        ensures
            final(self)@ == (TrackView { chno: old(self)@.chno, data: old(self)@.data + old(body)@ }),
            final(body)@ == Seq::<u8>::empty(),
    {
        self.data.append(body);
    }

    pub fn chno(&self) -> (c: u8)
        ensures
            c == self@.chno,
    {
        self.chno
    }

    pub fn data(&self) -> (d: &Vec<u8>)
        ensures
            d@ == self@.data,
    {
        &self.data
    }
}

/// The views of a vector of tracks.
pub open spec fn track_views(tracks: Seq<AudioTrack>) -> Seq<TrackView> {
    Seq::new(tracks.len(), |i: int| tracks[i]@)
}

/// The streams of a container.
pub struct DemuxOutput {
    video: Vec<u8>,
    audio: Vec<AudioTrack>,
}

impl View for DemuxOutput {
    type V = Streams;

    closed spec fn view(&self) -> Streams {
        Streams { video: self.video@, audio: track_views(self.audio@) }
    }
}

impl DemuxOutput {
    /// The streams made of the given parts.
    pub fn new(video: Vec<u8>, audio: Vec<AudioTrack>) -> (out: Self)
        ensures
            out@.video == video@,
            out@.audio == track_views(audio@),
    {
        Self { video, audio }
    }

    pub fn video(&self) -> (v: &Vec<u8>)
        ensures
            v@ == self@.video,
    {
        &self.video
    }

    pub fn track_count(&self) -> (n: usize)
        ensures
            n == self@.audio.len(),
    {
        self.audio.len()
    }

    pub fn track(&self, i: usize) -> (t: &AudioTrack)
        requires
            i < self@.audio.len(),
        ensures
            t@ == self@.audio[i as int],
    {
        &self.audio[i]
    }
}

/// A container that can be split into its streams.
pub trait Demuxable: Sized {
    /// What splitting the container bytes `data` gives.
    spec fn demuxed(&self, data: Seq<u8>) -> Result<Streams, ErrorView>;

    /// Splits the container bytes `data` into the video stream and the audio
    /// streams. Both kinds are always extracted, whatever the two flags say.
    fn demux(self, video_extract: bool, audio_extract: bool, data: &[u8]) -> (r: GICSResult<
        DemuxOutput,
    >)
        ensures
            match r {
                Ok(out) => self.demuxed(data@) == Ok::<Streams, ErrorView>(out@),
                Err(e) => self.demuxed(data@) == Err::<Streams, ErrorView>(e@),
            },
    ;
}

// ---------------------------------------------------------------------------
// Where the outputs go
// ---------------------------------------------------------------------------

/// What is known of the output path given by the user.
#[derive(Clone, Copy, Debug, PartialEq, Eq, Structural)]
pub struct OutputFacts {
    /// Whether the streams are to be merged into one file.
    pub merge: bool,
    /// Whether the path has an extension.
    pub has_extension: bool,
    /// Whether that extension is `mkv`.
    pub extension_is_mkv: bool,
    /// Whether something exists at the path.
    pub exists: bool,
    /// Whether that is a directory.
    pub is_dir: bool,
}

/// Where the streams go.
#[derive(Clone, Copy, Debug, PartialEq, Eq, Structural)]
pub enum OutputDirectory {
    /// Into the output path itself.
    Output,
    /// Into the directory that holds the output path, or the current one
    /// when the path has no parent.
    Parent,
}

/// Where the merged file goes.
#[derive(Clone, Copy, Debug, PartialEq, Eq, Structural)]
pub enum MergedFile {
    /// The output path itself.
    Output,
    /// Inside the output path, named after the input with the extension
    /// `mkv`.
    NamedAfterInput,
}

/// What to do with the output path.
#[derive(Clone, Copy, Debug, PartialEq, Eq, Structural)]
pub struct OutputPlan {
    /// Whether the output path must first be made, as a directory with its
    /// parents.
    pub create: bool,
    pub directory: OutputDirectory,
    pub merged: MergedFile,
}

/// The error of the given kind of refusal.
pub open spec fn refused(message: Seq<char>) -> ErrorView {
    ErrorView { kind: ErrorKind::IOFailure, message }
}

/// The plan for an output path. To merge, the path must name an `mkv` file,
/// or a directory, which is made when nothing is there. Without a merge it
/// must be a directory, which is made when nothing is there.
pub open spec fn planned(f: OutputFacts) -> Result<OutputPlan, ErrorView> {
    if f.merge {
        if !f.has_extension {
            if f.exists && !f.is_dir {
                Err(refused("Output path is not a directory and exists"@))
            } else {
                Ok(
                    OutputPlan {
                        create: !f.exists,
                        directory: OutputDirectory::Output,
                        merged: MergedFile::NamedAfterInput,
                    },
                )
            }
        } else if !f.extension_is_mkv {
            Err(refused("Merge option provided but output file name isn't a mkv file"@))
        } else {
            Ok(
                OutputPlan {
                    create: false,
                    directory: OutputDirectory::Parent,
                    merged: MergedFile::Output,
                },
            )
        }
    } else if f.exists && !f.is_dir {
        Err(refused("Unable to treat the output as a directory"@))
    } else {
        Ok(
            OutputPlan {
                create: !f.exists,
                directory: OutputDirectory::Output,
                merged: MergedFile::Output,
            },
        )
    }
}

/// Decides where the outputs go from what is known of the output path.
pub fn plan_output(f: OutputFacts) -> (r: GICSResult<OutputPlan>)
    ensures
        match r {
            Ok(plan) => planned(f) == Ok::<OutputPlan, ErrorView>(plan),
            Err(e) => planned(f) == Err::<OutputPlan, ErrorView>(e@),
        },
{
    if f.merge {
        if !f.has_extension {
            if f.exists && !f.is_dir {
                return Err(GICSError::new("Output path is not a directory and exists"));
            }
            Ok(
                OutputPlan {
                    create: !f.exists,
                    directory: OutputDirectory::Output,
                    merged: MergedFile::NamedAfterInput,
                },
            )
        } else if !f.extension_is_mkv {
            Err(GICSError::new("Merge option provided but output file name isn't a mkv file"))
        } else {
            Ok(
                OutputPlan {
                    create: false,
                    directory: OutputDirectory::Parent,
                    merged: MergedFile::Output,
                },
            )
        }
    } else if f.exists && !f.is_dir {
        Err(GICSError::new("Unable to treat the output as a directory"))
    } else {
        Ok(
            OutputPlan {
                create: !f.exists,
                directory: OutputDirectory::Output,
                merged: MergedFile::Output,
            },
        )
    }
}

} // verus!
