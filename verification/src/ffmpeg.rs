//! The command lines of the capture tool: for a capture, and for turning a
//! finished capture into another kind of file.

use crate::error::RecordError;
use vstd::prelude::*;
use vstd::string::*;

verus! {

/// The contents of a list of arguments.
pub open spec fn arguments_view(args: Seq<String>) -> Seq<Seq<char>> {
    Seq::new(args.len(), |i: int| args[i]@)
}

/// The arguments that make the tool pull through a proxy: none where no
/// proxy is given.
pub open spec fn proxy_arguments(proxy: Option<Seq<char>>) -> Seq<Seq<char>> {
    match proxy {
        Some(p) => seq!["-http_proxy"@, p],
        None => Seq::empty(),
    }
}

/// The arguments that say how the tool reports and presents itself.
pub open spec fn manner_arguments() -> Seq<Seq<char>> {
    seq![
        "-y"@,
        "-v"@,
        "verbose"@,
        "-rw_timeout"@,
        "30000000"@,
        "-loglevel"@,
        "error"@,
        "-hide_banner"@,
        "-user_agent"@,
        "\"Mozilla/5.0 (X11; Linux x86_64) AppleWebKit/537.36 (KHTML, like Gecko) Chrome/124.0.0.0 Safari/537.36\""@,
    ]
}

/// The arguments that say how the tool probes its input.
pub open spec fn probing_arguments() -> Seq<Seq<char>> {
    seq![
        "-protocol_whitelist"@,
        "rtmp,crypto,file,http,https,tcp,tls,udp,rtp,httpproxy"@,
        "-thread_queue_size"@,
        "1024"@,
        "-analyzeduration"@,
        "20000000"@,
        "-probesize"@,
        "10000000"@,
        "-fflags"@,
        "+discardcorrupt"@,
    ]
}

/// The arguments that name the stream at `url` as the input and say how to
/// hold on to it.
pub open spec fn input_arguments(url: Seq<char>) -> Seq<Seq<char>> {
    seq![
        "-i"@,
        url,
        "-bufsize"@,
        "8000k"@,
        "-sn"@,
        "-dn"@,
        "-reconnect_delay_max"@,
        "60"@,
        "-reconnect_streamed"@,
        "-reconnect_at_eof"@,
        "-max_muxing_queue_size"@,
        "1024"@,
        "-correct_ts_overflow"@,
        "1"@,
    ]
}

/// The arguments that make the tool copy what it reads into the transport
/// stream file `filename`.
pub open spec fn output_arguments(filename: Seq<char>) -> Seq<Seq<char>> {
    seq!["-c:v"@, "copy"@, "-c:a"@, "copy"@, "-map"@, "0"@, "-f"@, "mpegts"@, filename]
}

/// The whole command line of a capture, less the name of the tool.
pub open spec fn record_command(
    url: Seq<char>,
    filename: Seq<char>,
    proxy: Option<Seq<char>>,
) -> Seq<Seq<char>> {
    proxy_arguments(proxy) + manner_arguments() + probing_arguments() + input_arguments(url)
        + output_arguments(filename)
}

fn push_argument(args: &mut Vec<String>, arg: &str)
    ensures
        arguments_view(final(args)@) == arguments_view(old(args)@).push(arg@),
{
    args.push(String::from_str(arg));
    assert(arguments_view(args@) =~= arguments_view(old(args)@).push(arg@));
}

fn push_proxy(args: &mut Vec<String>, proxy: &Option<String>)
    ensures
        arguments_view(final(args)@) == arguments_view(old(args)@) + proxy_arguments(
            match *proxy {
                Some(p) => Some(p@),
                None => None,
            },
        ),
{
    match proxy {
        Some(p) => {
            push_argument(args, "-http_proxy");
            push_argument(args, p.as_str());
        },
        None => {},
    }
    assert(arguments_view(args@) =~= arguments_view(old(args)@) + proxy_arguments(
        match *proxy {
            Some(p) => Some(p@),
            None => None,
        },
    ));
}

fn push_manner(args: &mut Vec<String>)
    ensures
        arguments_view(final(args)@) == arguments_view(old(args)@) + manner_arguments(),
{
    push_argument(args, "-y");
    push_argument(args, "-v");
    push_argument(args, "verbose");
    push_argument(args, "-rw_timeout");
    push_argument(args, "30000000");
    push_argument(args, "-loglevel");
    push_argument(args, "error");
    push_argument(args, "-hide_banner");
    push_argument(args, "-user_agent");
    push_argument(
        args,
        "\"Mozilla/5.0 (X11; Linux x86_64) AppleWebKit/537.36 (KHTML, like Gecko) Chrome/124.0.0.0 Safari/537.36\"",
    );
    assert(arguments_view(args@) =~= arguments_view(old(args)@) + manner_arguments());
}

fn push_probing(args: &mut Vec<String>)
    ensures
        arguments_view(final(args)@) == arguments_view(old(args)@) + probing_arguments(),
{
    push_argument(args, "-protocol_whitelist");
    push_argument(args, "rtmp,crypto,file,http,https,tcp,tls,udp,rtp,httpproxy");
    push_argument(args, "-thread_queue_size");
    push_argument(args, "1024");
    push_argument(args, "-analyzeduration");
    push_argument(args, "20000000");
    push_argument(args, "-probesize");
    push_argument(args, "10000000");
    push_argument(args, "-fflags");
    push_argument(args, "+discardcorrupt");
    assert(arguments_view(args@) =~= arguments_view(old(args)@) + probing_arguments());
}

fn push_input(args: &mut Vec<String>, url: &str)
    ensures
        arguments_view(final(args)@) == arguments_view(old(args)@) + input_arguments(url@),
{
    push_argument(args, "-i");
    push_argument(args, url);
    push_argument(args, "-bufsize");
    push_argument(args, "8000k");
    push_argument(args, "-sn");
    push_argument(args, "-dn");
    push_argument(args, "-reconnect_delay_max");
    push_argument(args, "60");
    push_argument(args, "-reconnect_streamed");
    push_argument(args, "-reconnect_at_eof");
    push_argument(args, "-max_muxing_queue_size");
    push_argument(args, "1024");
    push_argument(args, "-correct_ts_overflow");
    push_argument(args, "1");
    assert(arguments_view(args@) =~= arguments_view(old(args)@) + input_arguments(url@));
}

fn push_output(args: &mut Vec<String>, filename: &str)
    ensures
        arguments_view(final(args)@) == arguments_view(old(args)@) + output_arguments(filename@),
{
    push_argument(args, "-c:v");
    push_argument(args, "copy");
    push_argument(args, "-c:a");
    push_argument(args, "copy");
    push_argument(args, "-map");
    push_argument(args, "0");
    push_argument(args, "-f");
    push_argument(args, "mpegts");
    push_argument(args, filename);
    assert(arguments_view(args@) =~= arguments_view(old(args)@) + output_arguments(filename@));
}

/// The arguments with which the capture tool pulls the stream at `url` into
/// the file `filename`, through `proxy` where one is given.
pub fn build_ffmpeg_record_command(url: &str, filename: &str, proxy: Option<String>) -> (args: Vec<
    String,
>)
    ensures
        arguments_view(args@) == record_command(
            url@,
            filename@,
            match proxy {
                Some(p) => Some(p@),
                None => None,
            },
        ),
{
    let mut args: Vec<String> = Vec::new();
    assert(arguments_view(args@) =~= Seq::<Seq<char>>::empty());
    push_proxy(&mut args, &proxy);
    assert(arguments_view(args@) =~= proxy_arguments(
        match proxy {
            Some(p) => Some(p@),
            None => None,
        },
    ));
    push_manner(&mut args);
    push_probing(&mut args);
    push_input(&mut args, url);
    push_output(&mut args, filename);
    args
}

/// The kind of file that a finished capture is turned into.
#[derive(Clone, Copy, Debug, PartialEq, Eq, Structural)]
pub enum Conversion {
    /// Picture and sound, rewrapped as MP4.
    Mp4,
    /// The sound alone, as M4A.
    M4a,
}

impl Conversion {
    /// The suffix of the files of this kind.
    pub open spec fn spec_suffix(self) -> Seq<char> {
        match self {
            Conversion::Mp4 => ".mp4"@,
            Conversion::M4a => ".m4a"@,
        }
    }

    /// The suffix of the files of this kind.
    pub fn suffix(&self) -> (s: &'static str)
        ensures
            s@ == self.spec_suffix(),
    {
        match self {
            Conversion::Mp4 => ".mp4",
            Conversion::M4a => ".m4a",
        }
    }
}

/// The text with every occurrence of `from` replaced by `to`, taken from left
/// to right without overlap.
pub uninterp spec fn replaced(s: Seq<char>, from: Seq<char>, to: Seq<char>) -> Seq<char>;

/// The text with every occurrence of `from` replaced by `to`.
///
/// Trusted: calls `str::replace`, whose result depends on its three
/// arguments alone.
#[verifier::external_body]
fn replace_all(s: &str, from: &str, to: &str) -> (r: String)
    ensures
        r@ == replaced(s@, from@, to@),
{
    s.replace(from, to)
}

/// `s` ends with `suffix`.
pub open spec fn has_suffix(s: Seq<char>, suffix: Seq<char>) -> bool {
    suffix.len() <= s.len() && s.subrange(s.len() - suffix.len(), s.len() as int) == suffix
}

/// Whether `s` ends with `suffix`.
pub fn ends_with(s: &str, suffix: &str) -> (r: bool)
    ensures
        r == has_suffix(s@, suffix@),
{
    let n = suffix.unicode_len();
    let len = s.unicode_len();
    if len < n {
        return false;
    }
    let from: usize = len - n;
    let mut i: usize = 0;
    while i < n
        invariant
            n == suffix@.len(),
            len == s@.len(),
            from == len - n,
            i <= n,
            forall|j: int| 0 <= j < i ==> s@[from + j] == suffix@[j],
        decreases n - i,
    {
        if s.get_char(from + i) != suffix.get_char(i) {
            assert(s@.subrange(from as int, len as int)[i as int] != suffix@[i as int]);
            return false;
        }
        i += 1;
    }
    assert(s@.subrange(from as int, len as int) =~= suffix@);
    true
}

/// The name of the file that the capture in `ts_file` is turned into.
pub open spec fn converted_name(ts_file: Seq<char>, target: Conversion) -> Seq<char> {
    replaced(ts_file, ".ts"@, target.spec_suffix())
}

/// The arguments with which the tool turns the capture in `ts_file` into a
/// file of the kind `target`.
pub open spec fn convert_command(ts_file: Seq<char>, target: Conversion) -> Seq<Seq<char>> {
    match target {
        Conversion::Mp4 => seq![
            "-i"@,
            ts_file,
            "-c:v"@,
            "copy"@,
            "-c:a"@,
            "copy"@,
            "-f"@,
            "mp4"@,
            converted_name(ts_file, target),
        ],
        Conversion::M4a => seq![
            "-i"@,
            ts_file,
            "-n"@,
            "-vn"@,
            "-c:a"@,
            "aac"@,
            "-bsf:a"@,
            "aac_adtstoasc"@,
            "-ab"@,
            "320k"@,
            converted_name(ts_file, target),
        ],
    }
}

/// The arguments with which the tool turns the capture in `ts_file` into a
/// file of the kind `target`, named like the capture with the suffix of the
/// kind. Only files named `.ts` are converted.
pub fn build_ffmpeg_convert_command(ts_file: &str, target: Conversion) -> (r: Result<
    Vec<String>,
    RecordError,
>)
    ensures
        match r {
            Ok(args) => has_suffix(ts_file@, ".ts"@) && arguments_view(args@) == convert_command(
                ts_file@,
                target,
            ),
            Err(e) => !has_suffix(ts_file@, ".ts"@) && e is PathFailure && e.spec_message()
                == "file is not end with .ts"@,
        },
{
    if !ends_with(ts_file, ".ts") {
        return Err(RecordError::PathFailure(String::from_str("file is not end with .ts")));
    }
    let out = replace_all(ts_file, ".ts", target.suffix());
    let mut args: Vec<String> = Vec::new();
    assert(arguments_view(args@) =~= Seq::<Seq<char>>::empty());
    push_argument(&mut args, "-i");
    push_argument(&mut args, ts_file);
    match target {
        Conversion::Mp4 => {
            push_argument(&mut args, "-c:v");
            push_argument(&mut args, "copy");
            push_argument(&mut args, "-c:a");
            push_argument(&mut args, "copy");
            push_argument(&mut args, "-f");
            push_argument(&mut args, "mp4");
        },
        Conversion::M4a => {
            push_argument(&mut args, "-n");
            push_argument(&mut args, "-vn");
            push_argument(&mut args, "-c:a");
            push_argument(&mut args, "aac");
            push_argument(&mut args, "-bsf:a");
            push_argument(&mut args, "aac_adtstoasc");
            push_argument(&mut args, "-ab");
            push_argument(&mut args, "320k");
        },
    }
    push_argument(&mut args, out.as_str());
    assert(arguments_view(args@) =~= convert_command(ts_file@, target));
    Ok(args)
}

} // verus!
