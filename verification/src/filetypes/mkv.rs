//! The command line of the external muxer, and what its exit means.

use crate::errors::{ErrorKind, ErrorView, GICSError, GICSResult};
use crate::text::{decimal, push_decimal, push_signed_decimal, signed_decimal};
use vstd::prelude::*;
use vstd::string::StringExecFns;

verus! {

/// The number of languages that have a place among the audio tracks.
pub const LANGUAGES: usize = 4;

/// The language code of the audio track `i`: Chinese, English, Japanese and
/// Korean, in this order.
pub open spec fn language_hint(i: int) -> Seq<char> {
    if i == 0 {
        "chi"@
    } else if i == 1 {
        "eng"@
    } else if i == 2 {
        "jpn"@
    } else {
        "kor"@
    }
}

/// The language name of the audio track `i`.
pub open spec fn language_title(i: int) -> Seq<char> {
    if i == 0 {
        "Chinese (汉语)"@
    } else if i == 1 {
        "English"@
    } else if i == 2 {
        "Japanese (日本語)"@
    } else {
        "Korean (한국어)"@
    }
}

/// The texts of a sequence of strings.
pub open spec fn texts(v: Seq<String>) -> Seq<Seq<char>> {
    Seq::new(v.len(), |i: int| v[i]@)
}

/// The input arguments for the video and the first `n` audio files.
pub open spec fn input_arguments(video: Seq<char>, audio: Seq<Seq<char>>, n: nat) -> Seq<
    Seq<char>,
>
    decreases n,
{
    if n == 0 {
        seq!["-i"@, video]
    } else {
        input_arguments(video, audio, (n - 1) as nat) + seq!["-i"@, audio[n - 1]]
    }
}

/// The stream mappings for the video and `n` audio files.
pub open spec fn map_arguments(n: nat) -> Seq<Seq<char>>
    decreases n,
{
    if n == 0 {
        seq!["-map"@, "0:v"@]
    } else {
        map_arguments((n - 1) as nat) + seq!["-map"@, decimal(n) + ":a"@]
    }
}

/// The language and the title of each of `n` audio tracks.
pub open spec fn metadata_arguments(n: nat) -> Seq<Seq<char>>
    decreases n,
{
    if n == 0 {
        Seq::empty()
    } else {
        metadata_arguments((n - 1) as nat) + seq![
            "-metadata:s:a:"@ + decimal((n - 1) as nat),
            "language="@ + language_hint(n - 1),
            "-metadata:s:a:"@ + decimal((n - 1) as nat),
            "title=\""@ + language_title(n - 1) + "\""@,
        ]
    }
}

/// The arguments of the muxer: the inputs, the mappings, the metadata, the
/// codecs (the video is copied, the audio encoded as Opus) and the output.
pub open spec fn merge_arguments(out: Seq<char>, video: Seq<char>, audio: Seq<Seq<char>>) -> Seq<
    Seq<char>,
> {
    input_arguments(video, audio, audio.len()) + map_arguments(audio.len()) + metadata_arguments(
        audio.len(),
    ) + seq!["-c:v"@, "copy"@, "-c:a"@, "libopus"@] + seq![out]
}

/// The error for a muxer that ended with the exit code `code`.
pub open spec fn mux_failed(code: i32) -> ErrorView {
    ErrorView {
        kind: ErrorKind::MuxFailed(code),
        message: "FFMpeg returned code "@ + signed_decimal(code as int),
    }
}

/// A merge that is ready to run: the output, the muxer and its arguments.
pub struct MKV {
    outpath: String,
    merge_binary: String,
    command: Vec<String>,
}

/// The mathematical content of an [`MKV`].
pub ghost struct MKVView {
    pub outpath: Seq<char>,
    pub merge_binary: Seq<char>,
    pub command: Seq<Seq<char>>,
}

impl View for MKV {
    type V = MKVView;

    closed spec fn view(&self) -> MKVView {
        MKVView {
            outpath: self.outpath@,
            merge_binary: self.merge_binary@,
            command: texts(self.command@),
        }
    }
}

fn text(s: &str) -> (r: String)
    ensures
        r@ == s@,
{
    String::from_str(s)
}

fn hint_of(i: usize) -> (s: &'static str)
    requires
        i < LANGUAGES,
    ensures
        s@ == language_hint(i as int),
{
    if i == 0 {
        "chi"
    } else if i == 1 {
        "eng"
    } else if i == 2 {
        "jpn"
    } else {
        "kor"
    }
}

fn title_of(i: usize) -> (s: &'static str)
    requires
        i < LANGUAGES,
    ensures
        s@ == language_title(i as int),
{
    if i == 0 {
        "Chinese (汉语)"
    } else if i == 1 {
        "English"
    } else if i == 2 {
        "Japanese (日本語)"
    } else {
        "Korean (한국어)"
    }
}

fn push_text(v: &mut Vec<String>, s: String)
    ensures
        texts(final(v)@) == texts(old(v)@).push(s@),
{
    v.push(s);
    assert(texts(v@) =~= texts(old(v)@).push(s@));
}

fn append_texts(v: &mut Vec<String>, w: Vec<String>)
    ensures
        texts(final(v)@) == texts(old(v)@) + texts(w@),
{
    let mut w = w;
    let ghost added = w@;
    v.append(&mut w);
    assert(texts(v@) =~= texts(old(v)@) + texts(added));
}

impl MKV {
    /// Prepares the merge of the video `v_path` and the audio files `a_paths`
    /// into `out_path` by the muxer `ffmpeg_path`. There is a language for
    /// at most four audio files.
    pub fn new(out_path: &str, v_path: &str, a_paths: &Vec<String>, ffmpeg_path: &str) -> (r:
        GICSResult<Self>)
        requires
            a_paths.len() <= LANGUAGES,
        ensures
            r matches Ok(m) && m@ == (MKVView {
                outpath: out_path@,
                merge_binary: ffmpeg_path@,
                command: merge_arguments(out_path@, v_path@, texts(a_paths@)),
            }),
    {
        let mut input_arguments: Vec<String> = Vec::new();
        push_text(&mut input_arguments, text("-i"));
        push_text(&mut input_arguments, text(v_path));
        let mut map_arguments: Vec<String> = Vec::new();
        push_text(&mut map_arguments, text("-map"));
        push_text(&mut map_arguments, text("0:v"));
        let mut metadata_arguments: Vec<String> = Vec::new();
        let ghost audio = texts(a_paths@);
        assert(texts(input_arguments@) =~= self::input_arguments(v_path@, audio, 0));
        assert(texts(map_arguments@) =~= self::map_arguments(0));
        assert(texts(metadata_arguments@) =~= self::metadata_arguments(0));
        let mut num: usize = 0;
        while num < a_paths.len()
            invariant
                num <= a_paths.len() <= LANGUAGES,
                audio == texts(a_paths@),
                texts(input_arguments@) == self::input_arguments(v_path@, audio, num as nat),
                texts(map_arguments@) == self::map_arguments(num as nat),
                texts(metadata_arguments@) == self::metadata_arguments(num as nat),
            decreases a_paths.len() - num,
        {
            let ghost inputs = texts(input_arguments@);
            let ghost maps = texts(map_arguments@);
            let ghost metas = texts(metadata_arguments@);
            push_text(&mut input_arguments, text("-i"));
            push_text(&mut input_arguments, text(a_paths[num].as_str()));
            assert(audio[num as int] == a_paths@[num as int]@);
            assert(texts(input_arguments@) =~= inputs + seq!["-i"@, audio[num as int]]);
            push_text(&mut map_arguments, text("-map"));
            let mut mapping = String::new();
            push_decimal(&mut mapping, (num + 1) as u64);
            mapping.append(":a");
            assert(mapping@ =~= decimal((num + 1) as nat) + ":a"@);
            push_text(&mut map_arguments, mapping);
            assert(texts(map_arguments@) =~= maps + seq!["-map"@, decimal((num + 1) as nat) + ":a"@]);
            let mut stream = text("-metadata:s:a:");
            push_decimal(&mut stream, num as u64);
            let mut language = text("language=");
            language.append(hint_of(num));
            let mut again = text("-metadata:s:a:");
            push_decimal(&mut again, num as u64);
            let mut title = text("title=\"");
            title.append(title_of(num));
            title.append("\"");
            push_text(&mut metadata_arguments, stream);
            push_text(&mut metadata_arguments, language);
            push_text(&mut metadata_arguments, again);
            push_text(&mut metadata_arguments, title);
            assert(texts(metadata_arguments@) =~= metas + seq![
                "-metadata:s:a:"@ + decimal(num as nat),
                "language="@ + language_hint(num as int),
                "-metadata:s:a:"@ + decimal(num as nat),
                "title=\""@ + language_title(num as int) + "\""@,
            ]);
            num += 1;
        }
        let mut merge_arguments: Vec<String> = Vec::new();
        push_text(&mut merge_arguments, text("-c:v"));
        push_text(&mut merge_arguments, text("copy"));
        push_text(&mut merge_arguments, text("-c:a"));
        push_text(&mut merge_arguments, text("libopus"));
        assert(texts(merge_arguments@) =~= seq!["-c:v"@, "copy"@, "-c:a"@, "libopus"@]);
        let mut command = input_arguments;
        append_texts(&mut command, map_arguments);
        append_texts(&mut command, metadata_arguments);
        append_texts(&mut command, merge_arguments);
        let ghost before = texts(command@);
        push_text(&mut command, text(out_path));
        assert(texts(command@) =~= before + seq![out_path@]);
        Ok(Self { outpath: text(out_path), merge_binary: text(ffmpeg_path), command })
    }

    /// What the exit of the muxer means: success, or a failure that carries
    /// the exit code, which counts as `-1` when the muxer gave none.
    pub fn merge_outcome(success: bool, code: Option<i32>) -> (r: GICSResult<()>)
        ensures
            success ==> r is Ok,
            !success ==> (r matches Err(e) && e@ == mux_failed(
                match code {
                    Some(c) => c,
                    None => -1i32,
                },
            )),
    {
        if success {
            Ok(())
        } else {
            let c: i32 = match code {
                Some(c) => c,
                None => -1,
            };
            let mut message = text("FFMpeg returned code ");
            push_signed_decimal(&mut message, c);
            Err(GICSError::from_parts(ErrorKind::MuxFailed(c), message))
        }
    }

    pub fn get_outpath(&self) -> (p: &str)
        ensures
            p@ == self@.outpath,
    {
        self.outpath.as_str()
    }

    /// The muxer to run.
    pub fn get_binary(&self) -> (p: &str)
        ensures
            p@ == self@.merge_binary,
    {
        self.merge_binary.as_str()
    }

    /// The arguments to run the muxer with.
    pub fn get_command(&self) -> (args: &Vec<String>)
        ensures
            texts(args@) == self@.command,
    {
        &self.command
    }
}

} // verus!
