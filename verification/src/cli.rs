//! Command-line arguments of the `--record` subcommand, and the commands
//! sent to a running instance.
use vstd::prelude::*;
use vstd::string::*;
use crate::config::Container;
use crate::text::{parse_i32, parse_u32, parse_usize, spec_parse_int, split_char, split_on, str_eq};

verus! {

/// The options of a recording request, as far as they were given.
#[derive(Debug)]
pub struct RecordArgs {
    pub output_file: Option<String>,
    pub output_name: Option<String>,
    /// Recording region (x, y, width, height)
    pub region: Option<(i32, i32, u32, u32)>,
    /// Logical size of the output (width, height)
    pub logical_size: Option<(u32, u32)>,
    pub encoder: Option<String>,
    pub container: Container,
    pub framerate: u32,
    pub toplevel_index: Option<usize>,
    pub show_cursor: bool,
}

/// The mathematical value of the recording options.
pub struct RecordArgsView {
    pub output_file: Option<Seq<char>>,
    pub output_name: Option<Seq<char>>,
    pub region: Option<(i32, i32, u32, u32)>,
    pub logical_size: Option<(u32, u32)>,
    pub encoder: Option<Seq<char>>,
    pub container: Container,
    pub framerate: u32,
    pub toplevel_index: Option<usize>,
    pub show_cursor: bool,
}

pub open spec fn opt_view(o: Option<String>) -> Option<Seq<char>> {
    match o {
        Some(s) => Some(s@),
        None => None,
    }
}

impl View for RecordArgs {
    type V = RecordArgsView;

    open spec fn view(&self) -> RecordArgsView {
        RecordArgsView {
            output_file: opt_view(self.output_file),
            output_name: opt_view(self.output_name),
            region: self.region,
            logical_size: self.logical_size,
            encoder: opt_view(self.encoder),
            container: self.container,
            framerate: self.framerate,
            toplevel_index: self.toplevel_index,
            show_cursor: self.show_cursor,
        }
    }
}

/// The options before any argument: MP4 at 60 fps, no cursor, nothing else.
pub open spec fn initial_record_args() -> RecordArgsView {
    RecordArgsView {
        output_file: None,
        output_name: None,
        region: None,
        logical_size: None,
        encoder: None,
        container: Container::Mp4,
        framerate: 60,
        toplevel_index: None,
        show_cursor: false,
    }
}

/// The region given as `x,y,w,h`, if it is exactly four valid numbers.
pub open spec fn spec_region(v: Seq<char>) -> Option<(i32, i32, u32, u32)> {
    let p = split_on(v, ',');
    if p.len() == 4 {
        match (
            spec_parse_int(p[0], i32::MIN as int, i32::MAX as int),
            spec_parse_int(p[1], i32::MIN as int, i32::MAX as int),
            spec_parse_int(p[2], 0, u32::MAX as int),
            spec_parse_int(p[3], 0, u32::MAX as int),
        ) {
            (Some(x), Some(y), Some(w), Some(h)) => Some((x as i32, y as i32, w as u32, h as u32)),
            _ => None,
        }
    } else {
        None
    }
}

/// The logical size given as `w,h`, if it is exactly two valid numbers.
pub open spec fn spec_size(v: Seq<char>) -> Option<(u32, u32)> {
    let p = split_on(v, ',');
    if p.len() == 2 {
        match (spec_parse_int(p[0], 0, u32::MAX as int), spec_parse_int(p[1], 0, u32::MAX as int)) {
            (Some(w), Some(h)) => Some((w as u32, h as u32)),
            _ => None,
        }
    } else {
        None
    }
}

/// The container named by a value (`Mp4`, `Webm`, `Mkv`), MP4 otherwise.
pub open spec fn spec_container(v: Seq<char>) -> Container {
    if v == "Webm"@ {
        Container::Webm
    } else if v == "Mkv"@ {
        Container::Mkv
    } else {
        Container::Mp4
    }
}

/// Law: a `--container` option followed by a value sets the container to the
/// variant the value names ("Mp4", "Webm" or "Mkv", three distinct
/// containers), to MP4 for any other value, consumes both arguments, and
/// leaves the other options as they were.
pub proof fn law_container_option(args: Seq<Seq<char>>, i: int, st: RecordArgsView)
    requires
        0 <= i,
        i + 1 < args.len(),
        args[i] == "--container"@,
    ensures
        ({
            let (j, next) = record_step(args, i, st);
            &&& j == i + 2
            &&& args[i + 1] == "Mp4"@ ==> next.container == Container::Mp4
            &&& args[i + 1] == "Webm"@ ==> next.container == Container::Webm
            &&& args[i + 1] == "Mkv"@ ==> next.container == Container::Mkv
            &&& (args[i + 1] != "Mp4"@ && args[i + 1] != "Webm"@ && args[i + 1] != "Mkv"@)
                ==> next.container == Container::Mp4
            &&& next == RecordArgsView { container: next.container, ..st }
        }),
        Container::Mp4 != Container::Webm && Container::Webm != Container::Mkv && Container::Mkv
            != Container::Mp4,
{
    reveal_strlit("--container");
    reveal_strlit("--output");
    reveal_strlit("--output-name");
    reveal_strlit("--region");
    reveal_strlit("--logical-size");
    reveal_strlit("--encoder");
    reveal_strlit("Mp4");
    reveal_strlit("Webm");
    reveal_strlit("Mkv");
    assert("--container"@.len() == 11 && "--output"@.len() == 8 && "--output-name"@.len() == 13);
    assert("--region"@.len() == 8 && "--logical-size"@.len() == 14 && "--encoder"@.len() == 9);
    assert("Mp4"@.len() == 3 && "Webm"@.len() == 4 && "Mkv"@.len() == 3);
    assert("Mp4"@[1] != "Mkv"@[1]);
}

/// The arguments `--container v` alone give the container named by `v`.
pub proof fn law_container_alone(v: Seq<char>)
    ensures
        v == "Webm"@ ==> record_scan(seq!["--container"@, v], 0, initial_record_args()).container
            == Container::Webm,
        v == "Mkv"@ ==> record_scan(seq!["--container"@, v], 0, initial_record_args()).container
            == Container::Mkv,
        (v != "Webm"@ && v != "Mkv"@) ==> record_scan(seq!["--container"@, v], 0, initial_record_args()).container
            == Container::Mp4,
{
    let args = seq!["--container"@, v];
    law_container_option(args, 0, initial_record_args());
    let (j, next) = record_step(args, 0, initial_record_args());
    assert(record_scan(args, 0, initial_record_args()) == record_scan(args, j, next));
    assert(record_scan(args, 2, next) == next);
}

/// One step of the argument scan at position `i`: the next position and the
/// updated options. An option that takes a value consumes it when there is
/// one and is skipped otherwise; a malformed region or size leaves the
/// previous one, a malformed frame rate means 60, a malformed window index
/// means none; unknown arguments are skipped.
pub open spec fn record_step(args: Seq<Seq<char>>, i: int, st: RecordArgsView) -> (int, RecordArgsView) {
    let a = args[i];
    let has_value = i + 1 < args.len();
    let v = args[i + 1];
    if a == "--output"@ {
        if has_value { (i + 2, RecordArgsView { output_file: Some(v), ..st }) } else { (i + 1, st) }
    } else if a == "--output-name"@ {
        if has_value { (i + 2, RecordArgsView { output_name: Some(v), ..st }) } else { (i + 1, st) }
    } else if a == "--region"@ {
        if has_value {
            (i + 2, match spec_region(v) {
                Some(r) => RecordArgsView { region: Some(r), ..st },
                None => st,
            })
        } else {
            (i + 1, st)
        }
    } else if a == "--logical-size"@ {
        if has_value {
            (i + 2, match spec_size(v) {
                Some(r) => RecordArgsView { logical_size: Some(r), ..st },
                None => st,
            })
        } else {
            (i + 1, st)
        }
    } else if a == "--encoder"@ {
        if has_value { (i + 2, RecordArgsView { encoder: Some(v), ..st }) } else { (i + 1, st) }
    } else if a == "--container"@ {
        if has_value {
            (i + 2, RecordArgsView { container: spec_container(v), ..st })
        } else {
            (i + 1, st)
        }
    } else if a == "--framerate"@ {
        if has_value {
            (i + 2, RecordArgsView {
                framerate: match spec_parse_int(v, 0, u32::MAX as int) {
                    Some(f) => f as u32,
                    None => 60,
                },
                ..st
            })
        } else {
            (i + 1, st)
        }
    } else if a == "--toplevel-index"@ {
        if has_value {
            (i + 2, RecordArgsView {
                toplevel_index: match spec_parse_int(v, 0, usize::MAX as int) {
                    Some(t) => Some(t as usize),
                    None => None,
                },
                ..st
            })
        } else {
            (i + 1, st)
        }
    } else if a == "--show-cursor"@ {
        (i + 1, RecordArgsView { show_cursor: true, ..st })
    } else {
        (i + 1, st)
    }
}

/// The options after scanning the arguments from position `i` on.
pub open spec fn record_scan(args: Seq<Seq<char>>, i: int, st: RecordArgsView) -> RecordArgsView
    decreases args.len() - i,
{
    if i < 0 || i >= args.len() {
        st
    } else {
        let (j, next) = record_step(args, i, st);
        if j <= i {
            st
        } else {
            record_scan(args, j, next)
        }
    }
}

fn parse_region(v: &str) -> (r: Option<(i32, i32, u32, u32)>)
    ensures
        r == spec_region(v@),
{
    let parts = split_char(v, ',');
    if parts.len() == 4 {
        let x = parse_i32(parts[0].as_str());
        let y = parse_i32(parts[1].as_str());
        let w = parse_u32(parts[2].as_str());
        let h = parse_u32(parts[3].as_str());
        match (x, y, w, h) {
            (Some(x), Some(y), Some(w), Some(h)) => Some((x, y, w, h)),
            _ => None,
        }
    } else {
        None
    }
}

fn parse_size(v: &str) -> (r: Option<(u32, u32)>)
    ensures
        r == spec_size(v@),
{
    let parts = split_char(v, ',');
    if parts.len() == 2 {
        let w = parse_u32(parts[0].as_str());
        let h = parse_u32(parts[1].as_str());
        match (w, h) {
            (Some(w), Some(h)) => Some((w, h)),
            _ => None,
        }
    } else {
        None
    }
}

/// Scan the arguments of the `--record` subcommand (those after it).
pub fn parse_record_args(args: &Vec<String>) -> (r: RecordArgs)
    ensures
        r@ == record_scan(args.deep_view(), 0, initial_record_args()),
{
    let mut st = RecordArgs {
        output_file: None,
        output_name: None,
        region: None,
        logical_size: None,
        encoder: None,
        container: Container::Mp4,
        framerate: 60,
        toplevel_index: None,
        show_cursor: false,
    };
    let n = args.len();
    let ghost dv = args.deep_view();
    let mut i: usize = 0;
    while i < n
        invariant
            n == args@.len(),
            dv == args.deep_view(),
            dv.len() == n,
            forall|j: int| 0 <= j < n ==> #[trigger] dv[j] == args@[j]@,
            0 <= i <= n,
            record_scan(dv, i as int, st@) == record_scan(dv, 0, initial_record_args()),
        decreases n + 1 - i,
    {
        let a = args[i].as_str();
        let has_value = i + 1 < n;
        let ghost before = st@;
        let ghost old_i = i;
        if str_eq(a, "--output") {
            if has_value {
                st.output_file = Some(args[i + 1].clone());
                i = i + 2;
            } else {
                i = i + 1;
            }
        } else if str_eq(a, "--output-name") {
            if has_value {
                st.output_name = Some(args[i + 1].clone());
                i = i + 2;
            } else {
                i = i + 1;
            }
        } else if str_eq(a, "--region") {
            if has_value {
                match parse_region(args[i + 1].as_str()) {
                    Some(r) => { st.region = Some(r); },
                    None => {},
                }
                i = i + 2;
            } else {
                i = i + 1;
            }
        } else if str_eq(a, "--logical-size") {
            if has_value {
                match parse_size(args[i + 1].as_str()) {
                    Some(r) => { st.logical_size = Some(r); },
                    None => {},
                }
                i = i + 2;
            } else {
                i = i + 1;
            }
        } else if str_eq(a, "--encoder") {
            if has_value {
                st.encoder = Some(args[i + 1].clone());
                i = i + 2;
            } else {
                i = i + 1;
            }
        } else if str_eq(a, "--container") {
            if has_value {
                let v = args[i + 1].as_str();
                st.container = if str_eq(v, "Mp4") {
                    Container::Mp4
                } else if str_eq(v, "Webm") {
                    Container::Webm
                } else if str_eq(v, "Mkv") {
                    Container::Mkv
                } else {
                    Container::Mp4
                };
                i = i + 2;
            } else {
                i = i + 1;
            }
        } else if str_eq(a, "--framerate") {
            if has_value {
                st.framerate = match parse_u32(args[i + 1].as_str()) {
                    Some(f) => f,
                    None => 60,
                };
                i = i + 2;
            } else {
                i = i + 1;
            }
        } else if str_eq(a, "--toplevel-index") {
            if has_value {
                st.toplevel_index = parse_usize(args[i + 1].as_str());
                i = i + 2;
            } else {
                i = i + 1;
            }
        } else if str_eq(a, "--show-cursor") {
            st.show_cursor = true;
            i = i + 1;
        } else {
            i = i + 1;
        }
        proof {
            reveal_strlit("--output");
            reveal_strlit("--output-name");
            reveal_strlit("--region");
            reveal_strlit("--logical-size");
            reveal_strlit("--encoder");
            reveal_strlit("--container");
            reveal_strlit("--framerate");
            reveal_strlit("--toplevel-index");
            reveal_strlit("--show-cursor");
            reveal_strlit("Mp4");
            reveal_strlit("Webm");
            reveal_strlit("Mkv");
            let (j, next) = record_step(dv, old_i as int, before);
            assert(j == i);
            assert(next == st@);
        }
    }
    st
}

/// The recording request a complete set of options makes: the output file
/// and name, the region, the logical size and the encoder must all be given.
pub fn record_request_complete(args: &RecordArgs) -> (b: bool)
    ensures
        b == (args.output_file is Some && args.output_name is Some && args.region is Some
            && args.logical_size is Some && args.encoder is Some),
{
    args.output_file.is_some() && args.output_name.is_some() && args.region.is_some()
        && args.logical_size.is_some() && args.encoder.is_some()
}

/// D-Bus object path of the control interface of a running instance.
pub const CONTROL_PATH: &'static str = "/io/github/hojjatabdollahi/snappea";

/// D-Bus interface name of the control interface.
pub const CONTROL_INTERFACE: &'static str = "io.github.hojjatabdollahi.snappea.Control";

/// Commands that can be sent to a running instance.
#[derive(Debug, Clone, Copy, PartialEq, Eq, Structural)]
pub enum ControlCommand {
    /// Take a screenshot (opens the selection UI)
    TakeScreenshot,
    /// Toggle recording (stop if recording, otherwise no-op for now)
    ToggleRecording,
    /// Quit the application
    Quit,
}

/// The command a second launch sends to the running instance: stop the
/// recording if one is running, take a screenshot otherwise.
pub fn command_for_second_launch(is_recording: bool) -> (s: &'static str)
    ensures
        is_recording ==> s@ == "toggle-recording"@,
        !is_recording ==> s@ == "screenshot"@,
{
    if is_recording {
        "toggle-recording"
    } else {
        "screenshot"
    }
}

/// The control method a command name calls; unknown names take a screenshot.
pub fn control_method(command: &str) -> (m: &'static str)
    ensures
        command@ == "toggle-recording"@ ==> m@ == "ToggleRecording"@,
        command@ == "quit"@ ==> m@ == "Quit"@,
        command@ != "toggle-recording"@ && command@ != "quit"@ ==> m@ == "TakeScreenshot"@,
{
    proof {
        reveal_strlit("screenshot");
        reveal_strlit("toggle-recording");
        reveal_strlit("quit");
        assert("toggle-recording"@.len() != "screenshot"@.len());
        assert("quit"@.len() != "screenshot"@.len());
        assert("quit"@.len() != "toggle-recording"@.len());
    }
    if str_eq(command, "screenshot") {
        "TakeScreenshot"
    } else if str_eq(command, "toggle-recording") {
        "ToggleRecording"
    } else if str_eq(command, "quit") {
        "Quit"
    } else {
        "TakeScreenshot"
    }
}

/// What a launch of the program does, by its first argument.
#[derive(Debug, Clone, Copy, PartialEq, Eq, Structural)]
pub enum LaunchMode {
    /// `--help` or `-h`: print the usage.
    Help,
    /// `--portal`: run as the desktop portal service.
    Portal,
    /// `--record`: record the screen with the options that follow.
    Record,
    /// Anything else: take a screenshot (through a running instance if
    /// there is one).
    Screenshot,
}

/// The launch mode for the program's arguments (`args[0]` is the program).
pub open spec fn spec_launch_mode(args: Seq<Seq<char>>) -> LaunchMode {
    if args.len() > 1 && (args[1] == "--help"@ || args[1] == "-h"@) {
        LaunchMode::Help
    } else if args.len() > 1 && args[1] == "--portal"@ {
        LaunchMode::Portal
    } else if args.len() > 1 && args[1] == "--record"@ {
        LaunchMode::Record
    } else {
        LaunchMode::Screenshot
    }
}

/// Decide what the program does from its arguments.
pub fn launch_mode(args: &Vec<String>) -> (m: LaunchMode)
    ensures
        m == spec_launch_mode(args@.map_values(|a: String| a@)),
{
    let ghost v = args@.map_values(|a: String| a@);
    if args.len() > 1 {
        let a = args[1].as_str();
        assert(v[1] == args@[1]@);
        if str_eq(a, "--help") || str_eq(a, "-h") {
            LaunchMode::Help
        } else if str_eq(a, "--portal") {
            LaunchMode::Portal
        } else if str_eq(a, "--record") {
            LaunchMode::Record
        } else {
            LaunchMode::Screenshot
        }
    } else {
        LaunchMode::Screenshot
    }
}

} // verus!
