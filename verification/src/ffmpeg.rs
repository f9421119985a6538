//! Command lines for `ffmpeg`.

use vstd::prelude::*;
use vstd::string::*;
use crate::paths::{child_of, is_ordinary_base, is_plain_segment, path_join};

verus! {

/// Where the `ffmpeg` and `ffprobe` executables are: on the search path, or in
/// a directory.
#[derive(Debug, Clone)]
pub enum FfmpegLocation {
    System,
    Local(String),
}

impl FfmpegLocation {
    /// The `ffmpeg` executable.
    pub fn ffmpeg(&self) -> (r: String)
        ensures
            self is System ==> r@ == "ffmpeg"@,
            self matches FfmpegLocation::Local(dir) ==> (is_ordinary_base(dir@) ==> child_of(r@, dir@, "ffmpeg"@)),
    {
        match self {
            FfmpegLocation::System => String::from_str("ffmpeg"),
            FfmpegLocation::Local(path) => {
                proof {
                    reveal_strlit("ffmpeg");
                    assert(is_plain_segment("ffmpeg"@));
                }
                path_join(path.as_str(), "ffmpeg")
            },
        }
    }

    /// The `ffprobe` executable.
    pub fn ffprobe(&self) -> (r: String)
        ensures
            self is System ==> r@ == "ffprobe"@,
            self matches FfmpegLocation::Local(dir) ==> (is_ordinary_base(dir@) ==> child_of(r@, dir@, "ffprobe"@)),
    {
        match self {
            FfmpegLocation::System => String::from_str("ffprobe"),
            FfmpegLocation::Local(path) => {
                proof {
                    reveal_strlit("ffprobe");
                    assert(is_plain_segment("ffprobe"@));
                }
                path_join(path.as_str(), "ffprobe")
            },
        }
    }
}

/// An `ffmpeg` invocation being put together.
#[derive(Default)]
pub struct Ffmpeg {
    pub executable_path: String,
    pub inputs: Vec<String>,
    pub start: Option<String>,
    pub extra_args: Vec<String>,
    pub working_directory: Option<String>,
    pub filter: Option<String>,
    pub format: Option<String>,
    pub log_level: Option<String>,
    pub output_file: String,
}

/// The texts of a list of strings.
pub open spec fn texts(v: Seq<String>) -> Seq<Seq<char>> {
    Seq::new(v.len(), |i: int| v[i]@)
}

/// `-i <input>` for each input.
pub open spec fn input_args(inputs: Seq<String>) -> Seq<Seq<char>>
    decreases inputs.len(),
{
    if inputs.len() == 0 {
        Seq::empty()
    } else {
        input_args(inputs.drop_last()) + seq!["-i"@, inputs.last()@]
    }
}

/// `<flag> <value>` when there is a value, nothing otherwise.
pub open spec fn option_args(flag: Seq<char>, value: Option<String>) -> Seq<Seq<char>> {
    match value {
        Some(v) => seq![flag, v@],
        None => Seq::empty(),
    }
}

/// The arguments of an invocation: no banner, the log level (warnings by
/// default), the start offset, the inputs, the format, the video filter, the
/// extra arguments and the output file, in this order.
pub open spec fn ffmpeg_args(f: Ffmpeg) -> Seq<Seq<char>> {
    seq!["-hide_banner"@, "-loglevel"@, match f.log_level { Some(l) => l@, None => "warning"@ }]
        + option_args("-ss"@, f.start)
        + input_args(f.inputs@)
        + option_args("-f"@, f.format)
        + option_args("-filter:v"@, f.filter)
        + texts(f.extra_args@)
        + seq![f.output_file@]
}

/// The texts of a list of string slices.
pub open spec fn str_texts(v: Seq<&str>) -> Seq<Seq<char>> {
    Seq::new(v.len(), |i: int| v[i]@)
}

fn push_option<'a>(args: &mut Vec<&'a str>, flag: &'a str, value: &'a Option<String>)
    ensures
        str_texts(final(args)@) == str_texts(old(args)@) + option_args(flag@, *value),
{
    match value {
        Some(v) => {
            args.push(flag);
            args.push(v.as_str());
            assert(str_texts(args@) =~= str_texts(old(args)@) + seq![flag@, v@]);
        },
        None => {
            assert(str_texts(args@) =~= str_texts(old(args)@) + Seq::empty());
        },
    }
}

impl Ffmpeg {
    /// An invocation of the executable at `location` that writes `output_file`.
    pub fn new(location: &FfmpegLocation, output_file: String) -> (r: Ffmpeg)
        ensures
            location is System ==> r.executable_path@ == "ffmpeg"@,
            location matches FfmpegLocation::Local(dir) ==> (is_ordinary_base(dir@) ==> child_of(
                r.executable_path@,
                dir@,
                "ffmpeg"@,
            )),
            r.output_file == output_file,
            r.inputs@.len() == 0,
            r.extra_args@.len() == 0,
            r.start is None && r.working_directory is None && r.filter is None,
            r.format is None && r.log_level is None,
    {
        Ffmpeg {
            output_file,
            executable_path: location.ffmpeg(),
            inputs: Vec::new(),
            start: None,
            extra_args: Vec::new(),
            working_directory: None,
            filter: None,
            format: None,
            log_level: None,
        }
    }

    /// Adds an input.
    pub fn input(&mut self, input: String) -> (r: &mut Self)
        ensures
            *r == (Ffmpeg { inputs: r.inputs, ..*old(self) }),
            r.inputs@ == old(self).inputs@.push(input),
            *final(self) == *final(r),
    {
        self.inputs.push(input);
        self
    }

    /// Sets the directory the command runs in.
    pub fn working_directory(&mut self, working_directory: String) -> (r: &mut Self)
        ensures
            *r == (Ffmpeg { working_directory: Some(working_directory), ..*old(self) }),
            *final(self) == *final(r),
    {
        self.working_directory = Some(working_directory);
        self
    }

    /// Sets where in the input to start, as the text of a number of seconds.
    pub fn start_at(&mut self, start: String) -> (r: &mut Self)
        ensures
            *r == (Ffmpeg { start: Some(start), ..*old(self) }),
            *final(self) == *final(r),
    {
        self.start = Some(start);
        self
    }

    /// Sets the video filter.
    pub fn video_filter(&mut self, filter: String) -> (r: &mut Self)
        ensures
            *r == (Ffmpeg { filter: Some(filter), ..*old(self) }),
            *final(self) == *final(r),
    {
        self.filter = Some(filter);
        self
    }

    /// Sets the output format.
    pub fn format(&mut self, format: String) -> (r: &mut Self)
        ensures
            *r == (Ffmpeg { format: Some(format), ..*old(self) }),
            *final(self) == *final(r),
    {
        self.format = Some(format);
        self
    }

    /// Sets the log level.
    pub fn log_level(&mut self, log_level: String) -> (r: &mut Self)
        ensures
            *r == (Ffmpeg { log_level: Some(log_level), ..*old(self) }),
            *final(self) == *final(r),
    {
        self.log_level = Some(log_level);
        self
    }

    /// Adds an argument that goes just before the output file.
    pub fn extra_arg(&mut self, arg: String) -> (r: &mut Self)
        ensures
            *r == (Ffmpeg { extra_args: r.extra_args, ..*old(self) }),
            r.extra_args@ == old(self).extra_args@.push(arg),
            *final(self) == *final(r),
    {
        self.extra_args.push(arg);
        self
    }

    /// The arguments of the invocation.
    pub fn build_args(&self) -> (r: Vec<&str>)
        ensures
            str_texts(r@) == ffmpeg_args(*self),
    {
        let mut args: Vec<&str> = Vec::new();
        args.push("-hide_banner");
        args.push("-loglevel");
        match &self.log_level {
            Some(l) => args.push(l.as_str()),
            None => args.push("warning"),
        }
        let ghost head = str_texts(args@);
        push_option(&mut args, "-ss", &self.start);
        let ghost after_start = str_texts(args@);
        let n = self.inputs.len();
        let mut i: usize = 0;
        while i < n
            invariant
                n == self.inputs@.len(),
                0 <= i <= n,
                str_texts(args@) == after_start + input_args(self.inputs@.take(i as int)),
            decreases n - i,
        {
            let ghost before = str_texts(args@);
            args.push("-i");
            args.push(self.inputs[i].as_str());
            proof {
                assert(self.inputs@.take(i as int + 1).drop_last() =~= self.inputs@.take(i as int));
                assert(str_texts(args@) =~= before + seq!["-i"@, self.inputs@[i as int]@]);
            }
            i = i + 1;
        }
        proof {
            assert(self.inputs@.take(n as int) =~= self.inputs@);
        }
        push_option(&mut args, "-f", &self.format);
        push_option(&mut args, "-filter:v", &self.filter);
        let ghost before_extra = str_texts(args@);
        let m = self.extra_args.len();
        let mut j: usize = 0;
        while j < m
            invariant
                m == self.extra_args@.len(),
                0 <= j <= m,
                str_texts(args@) == before_extra + texts(self.extra_args@.take(j as int)),
            decreases m - j,
        {
            let ghost before = str_texts(args@);
            args.push(self.extra_args[j].as_str());
            proof {
                assert(str_texts(args@) =~= before + seq![self.extra_args@[j as int]@]);
                assert(texts(self.extra_args@.take(j as int + 1)) =~= texts(self.extra_args@.take(j as int)) + seq![
                    self.extra_args@[j as int]@,
                ]);
            }
            j = j + 1;
        }
        proof {
            assert(self.extra_args@.take(m as int) =~= self.extra_args@);
        }
        let ghost before_out = str_texts(args@);
        args.push(self.output_file.as_str());
        proof {
            assert(str_texts(args@) =~= before_out + seq![self.output_file@]);
            assert(head =~= seq!["-hide_banner"@, "-loglevel"@, match self.log_level { Some(l) => l@, None => "warning"@ }]);
            assert(str_texts(args@) =~= ffmpeg_args(*self));
        }
        args
    }
}

} // verus!
