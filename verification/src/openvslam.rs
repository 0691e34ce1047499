use vstd::prelude::*;

use crate::settings::Slam;

verus! {

/// `flag` followed by the value, when there is a value; nothing otherwise.
pub open spec fn optional_arg(flag: Seq<char>, value: Option<String>) -> Seq<Seq<char>> {
    match value {
        Some(v) => seq![flag, v@],
        None => Seq::empty(),
    }
}

/// The command line OpenVSlam is started with, after the program itself:
/// the configuration and the vocabulary, then the video, the mask, the
/// map database and the GStreamer pipeline when they are set.
pub open spec fn openvslam_command_line<W>(slam: Slam<W>, map: Option<String>) -> Seq<Seq<char>> {
    seq!["-c"@, slam.openvslam_config@, "-v"@, slam.vocab@] + optional_arg("-m"@, slam.video)
        + optional_arg("--mask"@, slam.mask) + optional_arg("--map"@, map) + optional_arg(
        "--gstreamer_pipeline"@,
        slam.gstreamer_pipeline,
    )
}

/// 1 when a setting is set, 0 otherwise.
pub open spec fn set_count(value: Option<String>) -> int {
    if value is Some {
        1
    } else {
        0
    }
}

/// `args` holds `flag` immediately followed by `value`.
pub open spec fn has_flag_value(args: Seq<Seq<char>>, flag: Seq<char>, value: Seq<char>) -> bool {
    exists|i: int| 0 <= i < args.len() - 1 && #[trigger] args[i] == flag && args[i + 1] == value
}

/// Every setting that is set reaches OpenVSlam with its flag: the
/// configuration after `-c` and the vocabulary after `-v` first, then the
/// video after `-m`, the mask after `--mask`, the map database after
/// `--map` and the GStreamer pipeline after `--gstreamer_pipeline`, each
/// when it is set; and nothing else is on the command line.
pub proof fn law_every_setting_is_passed<W>(slam: Slam<W>, map: Option<String>)
    ensures
        ({
            let args = openvslam_command_line(slam, map);
            &&& args.len() == 4 + 2 * (set_count(slam.video) + set_count(slam.mask) + set_count(
                map,
            ) + set_count(slam.gstreamer_pipeline))
            &&& args[0] == "-c"@ && args[1] == slam.openvslam_config@
            &&& args[2] == "-v"@ && args[3] == slam.vocab@
            &&& slam.video matches Some(v) ==> has_flag_value(args, "-m"@, v@)
            &&& slam.mask matches Some(m) ==> has_flag_value(args, "--mask"@, m@)
            &&& map matches Some(m) ==> has_flag_value(args, "--map"@, m@)
            &&& slam.gstreamer_pipeline matches Some(g) ==> has_flag_value(
                args,
                "--gstreamer_pipeline"@,
                g@,
            )
        }),
{
    let head = seq!["-c"@, slam.openvslam_config@, "-v"@, slam.vocab@];
    let a = optional_arg("-m"@, slam.video);
    let b = optional_arg("--mask"@, slam.mask);
    let c = optional_arg("--map"@, map);
    let d = optional_arg("--gstreamer_pipeline"@, slam.gstreamer_pipeline);
    let args = openvslam_command_line(slam, map);
    assert(args == head + a + b + c + d);
    let n0 = head.len() as int;
    let n1 = n0 + a.len();
    let n2 = n1 + b.len();
    let n3 = n2 + c.len();
    assert(args[0] == head[0] && args[1] == head[1] && args[2] == head[2] && args[3] == head[3]);
    if let Some(v) = slam.video {
        assert(args[n0] == a[0] && args[n0 + 1] == a[1]);
    }
    if let Some(m) = slam.mask {
        assert(args[n1] == b[0] && args[n1 + 1] == b[1]);
    }
    if let Some(m) = map {
        assert(args[n2] == c[0] && args[n2 + 1] == c[1]);
    }
    if let Some(g) = slam.gstreamer_pipeline {
        assert(args[n3] == d[0] && args[n3 + 1] == d[1]);
    }
}

fn copy_text(s: &String) -> (r: String)
    ensures
        r@ == s@,
{
    s.clone()
}

fn push_optional(args: &mut Vec<String>, flag: &str, value: &Option<String>)
    ensures
        final(args)@.map_values(|a: String| a@) == old(args)@.map_values(|a: String| a@)
            + optional_arg(flag@, *value),
{
    match value {
        Some(v) => {
            args.push(flag.to_owned());
            args.push(copy_text(v));
        },
        None => {},
    }
    assert(final(args)@.map_values(|a: String| a@) =~= old(args)@.map_values(|a: String| a@)
        + optional_arg(flag@, *value));
}

/// The arguments to start OpenVSlam with for the SLAM settings `slam` and
/// the map database `map`.
pub fn openvslam_args<W>(slam: &Slam<W>, map: &Option<String>) -> (r: Vec<String>)
    ensures
        r@.map_values(|a: String| a@) == openvslam_command_line(*slam, *map),
{
    let mut args: Vec<String> = Vec::new();
    args.push("-c".to_owned());
    args.push(copy_text(&slam.openvslam_config));
    args.push("-v".to_owned());
    args.push(copy_text(&slam.vocab));
    assert(args@.map_values(|a: String| a@) =~= seq![
        "-c"@,
        slam.openvslam_config@,
        "-v"@,
        slam.vocab@,
    ]);
    push_optional(&mut args, "-m", &slam.video);
    push_optional(&mut args, "--mask", &slam.mask);
    push_optional(&mut args, "--map", map);
    push_optional(&mut args, "--gstreamer_pipeline", &slam.gstreamer_pipeline);
    args
}

} // verus!

verus! {

/// The bus messages that concern the OpenVSlam process; `Other` stands for
/// every other message.
#[derive(Debug)]
pub enum BusCommand {
    TerminateSlam,
    SaveMapDB(String),
    UseRawPreview(bool),
    Other,
}

/// Which picture OpenVSlam streams back: the raw camera frame, or the
/// frame with the tracked features drawn on it.
#[derive(Debug, Clone, Copy, PartialEq, Eq, Structural)]
pub enum PreviewType {
    Raw,
    SlamInfo,
}

/// A request to OpenVSlam's control interface.
#[derive(Debug)]
pub enum SlamRequest {
    Terminate,
    SaveMapDb { path: String },
    SetPreviewType(PreviewType),
}

/// The request that a bus message asks OpenVSlam for, if any: terminate,
/// save the map database to a path, or switch the preview picture.
pub fn slam_request(cmd: BusCommand) -> (r: Option<SlamRequest>)
    ensures
        r == match cmd {
            BusCommand::TerminateSlam => Some(SlamRequest::Terminate),
            BusCommand::SaveMapDB(path) => Some(SlamRequest::SaveMapDb { path }),
            BusCommand::UseRawPreview(use_raw) => Some(
                SlamRequest::SetPreviewType(
                    if use_raw {
                        PreviewType::Raw
                    } else {
                        PreviewType::SlamInfo
                    },
                ),
            ),
            BusCommand::Other => None,
        },
{
    match cmd {
        BusCommand::TerminateSlam => Some(SlamRequest::Terminate),
        BusCommand::SaveMapDB(path) => Some(SlamRequest::SaveMapDb { path }),
        BusCommand::UseRawPreview(use_raw) => {
            let preview = if use_raw {
                PreviewType::Raw
            } else {
                PreviewType::SlamInfo
            };
            Some(SlamRequest::SetPreviewType(preview))
        },
        BusCommand::Other => None,
    }
}

/// Whether the restart loop is still alive after a run that ended with
/// `exited_cleanly`: it lives on only after a clean exit (a terminate
/// request); a crash, or a failure to start or wait for the process, ends
/// it.
pub open spec fn alive_after_exit(alive: bool, exited_cleanly: bool) -> bool {
    alive && exited_cleanly
}

/// Whether the loop is alive after the runs whose exits are `outcomes`, in
/// order (`true` for a clean exit).
pub open spec fn alive_after(outcomes: Seq<bool>) -> bool
    decreases outcomes.len(),
{
    if outcomes.len() == 0 {
        true
    } else {
        alive_after_exit(alive_after(outcomes.drop_last()), outcomes.last())
    }
}

/// The loop that keeps OpenVSlam running: it starts the first run at once,
/// and after each run decides whether to start another.
pub struct RestartLoop {
    pub alive: bool,
}

impl RestartLoop {
    /// A loop that has just started its first run.
    pub fn new() -> (r: Self)
        ensures
            r.alive,
    {
        RestartLoop { alive: true }
    }

    /// Takes in how the current run ended and says whether to start the
    /// next one.
    pub fn on_exit(&mut self, exited_cleanly: bool) -> (start_again: bool)
        ensures
            final(self).alive == alive_after_exit(old(self).alive, exited_cleanly),
            start_again == final(self).alive,
    {
        self.alive = self.alive && exited_cleanly;
        self.alive
    }
}

/// OpenVSlam is restarted only after clean exits: run `k + 1` is started
/// (the loop is alive after the first `k + 1` exits) exactly when every run
/// up to and including run `k` exited cleanly, so the first failure ends
/// the loop for good.
pub proof fn law_restart_until_first_failure(outcomes: Seq<bool>)
    ensures
        alive_after(outcomes) <==> (forall|j: int| 0 <= j < outcomes.len() ==> #[trigger] outcomes[j]),
        forall|k: int|
            0 <= k < outcomes.len() ==> (#[trigger] alive_after(outcomes.take(k + 1)) <==> (forall|j: int|
                0 <= j <= k ==> #[trigger] outcomes[j])),
    decreases outcomes.len(),
{
    if outcomes.len() > 0 {
        let rest = outcomes.drop_last();
        law_restart_until_first_failure(rest);
        assert forall|k: int| 0 <= k < outcomes.len() implies (#[trigger] alive_after(
            outcomes.take(k + 1),
        ) <==> (forall|j: int| 0 <= j <= k ==> #[trigger] outcomes[j])) by {
            if k + 1 == outcomes.len() {
                assert(outcomes.take(k + 1) =~= outcomes);
            } else {
                assert(outcomes.take(k + 1) =~= rest.take(k + 1));
                assert forall|j: int| 0 <= j <= k implies rest[j] == outcomes[j] by {}
            }
        }
        if alive_after(outcomes) {
            assert forall|j: int| 0 <= j < outcomes.len() implies #[trigger] outcomes[j] by {
                if j < outcomes.len() - 1 {
                    assert(rest[j] == outcomes[j]);
                }
            }
        }
        if forall|j: int| 0 <= j < outcomes.len() ==> #[trigger] outcomes[j] {
            assert forall|j: int| 0 <= j < rest.len() implies #[trigger] rest[j] by {
                assert(rest[j] == outcomes[j]);
            }
            assert(outcomes[outcomes.len() - 1]);
        }
    }
}

} // verus!
