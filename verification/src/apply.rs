//! Applicator: making a selected image the active wallpaper.
//!
//! The synchronous half checks the configuration and extracts an
//! [`ApplyPlan`] (`validate_apply`); the caller returns to its invoker as
//! soon as that check passes. The detached half is the sequence
//! remove-link, create-link, run-post-script: `next_action` decides each
//! step from the last event, and `run_apply` states the sequence's whole
//! effect against the model filesystem, for every outcome of the two steps
//! the environment decides.

use crate::fsmodel::FsModel;
use crate::image::Image;
use vstd::prelude::*;

verus! {

/// The pre-validated, read-only settings the pipeline consumes. Loaded
/// once at process start; fields the pipeline requires may still be
/// absent, and the applicator fails explicitly when they are.
#[derive(Clone, Debug)]
pub struct Config {
    /// The well-known path the desktop reads to display the wallpaper.
    pub current_wallpaper: Option<String>,
    /// Shell command run after a successful swap.
    pub post_script: Option<String>,
    /// Directory scanned for candidates.
    pub wallpaper_dir: Option<String>,
    /// Allowed file extensions, matched ignoring ASCII case.
    pub allowed_extensions: Vec<String>,
}

/// Why an apply request was rejected before any work started.
#[derive(Clone, Copy, Debug, PartialEq, Eq, Structural)]
pub enum ApplyError {
    /// `current_wallpaper` is absent from the configuration.
    CurrentWallpaperNotConfigured,
    /// `post_script` is absent from the configuration.
    PostScriptNotConfigured,
}

impl ApplyError {
    /// Diagnostic text for the caller's error channel.
    pub fn message(&self) -> (m: String)
        ensures
            *self is CurrentWallpaperNotConfigured ==> m@ == "Current wallpaper path not configured"@,
            *self is PostScriptNotConfigured ==> m@ == "Post script not configured"@,
    {
        match self {
            ApplyError::CurrentWallpaperNotConfigured => "Current wallpaper path not configured".to_owned(),
            ApplyError::PostScriptNotConfigured => "Post script not configured".to_owned(),
        }
    }
}

/// Everything the detached sequence needs, extracted from a validated
/// request: where the link lives, what it must point at, and the script
/// to run afterwards.
#[derive(Clone, Debug)]
pub struct ApplyPlan {
    pub link_path: String,
    pub image_path: String,
    pub post_script: String,
}

/// Check the preconditions of an apply request, before any detached work.
///
/// Returns the plan exactly when both `current_wallpaper` and
/// `post_script` are configured, and otherwise the missing setting, the
/// link path being checked first. No filesystem work happens here.
pub fn validate_apply(image: &Image, config: &Config) -> (r: Result<ApplyPlan, ApplyError>)
    ensures
        r is Ok <==> (config.current_wallpaper is Some && config.post_script is Some),
        config.current_wallpaper is None ==> r == Err::<ApplyPlan, ApplyError>(
            ApplyError::CurrentWallpaperNotConfigured,
        ),
        config.current_wallpaper is Some && config.post_script is None ==> r == Err::<
            ApplyPlan,
            ApplyError,
        >(ApplyError::PostScriptNotConfigured),
        r is Ok ==> r->Ok_0.link_path == config.current_wallpaper->0
            && r->Ok_0.image_path == image.img_path
            && r->Ok_0.post_script == config.post_script->0,
{
    let link_path = match &config.current_wallpaper {
        Some(p) => p.clone(),
        None => {
            return Err(ApplyError::CurrentWallpaperNotConfigured);
        },
    };
    let post_script = match &config.post_script {
        Some(s) => s.clone(),
        None => {
            return Err(ApplyError::PostScriptNotConfigured);
        },
    };
    Ok(ApplyPlan { link_path, image_path: image.img_path.clone(), post_script })
}

/// One step of the detached apply sequence, as the caller performs it.
#[derive(Clone, Copy, Debug, PartialEq, Eq, Structural)]
pub enum ApplyAction {
    /// Remove whatever is at the link path (a missing entry is fine).
    RemoveCurrent,
    /// Point the link path at the selected image.
    CreateLink,
    /// Run the configured post-script.
    RunScript,
    /// Nothing further: the sequence is over.
    Finish,
}

/// What the caller reports back after performing an action.
#[derive(Clone, Copy, Debug, PartialEq, Eq, Structural)]
pub enum ApplyEvent {
    /// The sequence is starting.
    Start,
    /// The old entry is gone — or was never there, which is just as good.
    CurrentRemoved,
    /// The new link is in place.
    LinkCreated,
    /// The link could not be created.
    LinkFailed,
    /// The post-script exited with status zero.
    ScriptSucceeded,
    /// The post-script exited non-zero or could not be spawned.
    ScriptFailed,
}

/// The action that follows each event: remove, then link; run the script
/// if and only if the link was created; stop after a link failure (the
/// script is skipped) and after the script has run, whatever its outcome
/// (a failed script does not undo the link).
pub open spec fn next_action_spec(ev: ApplyEvent) -> ApplyAction {
    match ev {
        ApplyEvent::Start => ApplyAction::RemoveCurrent,
        ApplyEvent::CurrentRemoved => ApplyAction::CreateLink,
        ApplyEvent::LinkCreated => ApplyAction::RunScript,
        ApplyEvent::LinkFailed => ApplyAction::Finish,
        ApplyEvent::ScriptSucceeded => ApplyAction::Finish,
        ApplyEvent::ScriptFailed => ApplyAction::Finish,
    }
}

/// Decide the next step of the detached sequence from the last event. The
/// caller loops: perform the action, report the event, ask again, until
/// `Finish`.
pub fn next_action(ev: &ApplyEvent) -> (a: ApplyAction)
    ensures
        a == next_action_spec(*ev),
{
    match ev {
        ApplyEvent::Start => ApplyAction::RemoveCurrent,
        ApplyEvent::CurrentRemoved => ApplyAction::CreateLink,
        ApplyEvent::LinkCreated => ApplyAction::RunScript,
        ApplyEvent::LinkFailed => ApplyAction::Finish,
        ApplyEvent::ScriptSucceeded => ApplyAction::Finish,
        ApplyEvent::ScriptFailed => ApplyAction::Finish,
    }
}

/// How a finished apply sequence went. Only a diagnostic sink sees this:
/// the original caller returned when validation passed.
#[derive(Clone, Copy, Debug, PartialEq, Eq, Structural)]
pub enum ApplyOutcome {
    /// Swap and post-script both succeeded.
    Completed,
    /// The link is in place but the post-script failed; the swap stands.
    ScriptFailed,
    /// The link could not be created; the post-script never ran.
    SwapFailed,
}

/// The outcome the sequence reports, given how its two fallible steps went.
pub open spec fn outcome_of(link_ok: bool, script_ok: bool) -> ApplyOutcome {
    if !link_ok {
        ApplyOutcome::SwapFailed
    } else if script_ok {
        ApplyOutcome::Completed
    } else {
        ApplyOutcome::ScriptFailed
    }
}

/// Did the sequence reach the post-script?
pub open spec fn script_was_run(o: ApplyOutcome) -> bool {
    !(o is SwapFailed)
}

/// The filesystem after a swap attempt: the old entry at the link path is
/// removed either way; the new link is present exactly when link creation
/// succeeded.
pub open spec fn swap_result(
    fs: Map<Seq<char>, Seq<char>>,
    link: Seq<char>,
    img: Seq<char>,
    link_ok: bool,
) -> Map<Seq<char>, Seq<char>> {
    if link_ok {
        fs.insert(link, img)
    } else {
        fs.remove(link)
    }
}

/// Run the whole detached sequence against the model filesystem.
///
/// `link_ok` and `script_ok` stand for the outcomes of the two steps the
/// environment decides: whether the link syscall succeeds, and how the
/// post-script exits. Whatever those outcomes, the old entry at the link
/// path goes first, the post-script step is reached if and only if the
/// link was created, and a failing post-script leaves the fresh link in
/// place.
pub fn run_apply(fs: &mut FsModel, plan: &ApplyPlan, link_ok: bool, script_ok: bool) -> (o:
    ApplyOutcome)
    ensures
        final(fs)@ == swap_result(old(fs)@, plan.link_path@, plan.image_path@, link_ok),
        o == outcome_of(link_ok, script_ok),
        script_was_run(o) == link_ok,
        link_ok ==> final(fs)@.contains_key(plan.link_path@) && final(fs)@[plan.link_path@]
            == plan.image_path@,
{
    fs.remove_link(&plan.link_path);
    if link_ok {
        fs.create_link(&plan.link_path, &plan.image_path);
        proof {
            assert(old(fs)@.remove(plan.link_path@).insert(plan.link_path@, plan.image_path@)
                =~= old(fs)@.insert(plan.link_path@, plan.image_path@));
        }
        if script_ok {
            ApplyOutcome::Completed
        } else {
            ApplyOutcome::ScriptFailed
        }
    } else {
        ApplyOutcome::SwapFailed
    }
}

/// Applying to a missing link path succeeds all the same: removing the
/// absent entry changes nothing, and the swap simply installs the new
/// link.
pub proof fn lemma_apply_to_missing_link(
    fs: Map<Seq<char>, Seq<char>>,
    link: Seq<char>,
    img: Seq<char>,
)
    requires
        !fs.contains_key(link),
    ensures
        fs.remove(link) == fs,
        swap_result(fs, link, img, true) == fs.insert(link, img),
{
    assert(fs.remove(link) =~= fs);
}

/// Two applies in a row leave the link pointing at the second image: the
/// second swap fully overwrites the first.
pub proof fn lemma_apply_twice(
    fs: Map<Seq<char>, Seq<char>>,
    link: Seq<char>,
    img1: Seq<char>,
    img2: Seq<char>,
)
    ensures
        swap_result(swap_result(fs, link, img1, true), link, img2, true) == fs.insert(link, img2),
        swap_result(swap_result(fs, link, img1, true), link, img2, true)[link] == img2,
{
    assert(fs.insert(link, img1).insert(link, img2) =~= fs.insert(link, img2));
}

/// The decision table keeps the sequence's ordering policy: the script is
/// asked for exactly after a created link, and nothing follows a link
/// failure or a finished script — whichever way the script went.
pub proof fn lemma_machine_policy(ev: ApplyEvent)
    ensures
        next_action_spec(ev) is RunScript <==> ev is LinkCreated,
        ev is LinkFailed ==> next_action_spec(ev) is Finish,
        ev is ScriptSucceeded || ev is ScriptFailed ==> next_action_spec(ev) is Finish,
{
}

/// The post-script's outcome never touches the filesystem: after a
/// successful swap the link points at the new image whether or not the
/// script succeeded — and the script step is reached in either case.
pub proof fn lemma_script_failure_keeps_swap(
    fs: Map<Seq<char>, Seq<char>>,
    link: Seq<char>,
    img: Seq<char>,
    script_ok: bool,
)
    ensures
        swap_result(fs, link, img, true)[link] == img,
        script_was_run(outcome_of(true, script_ok)),
{
}

} // verus!
