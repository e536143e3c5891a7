use wallswitch::apply::{
    next_action, run_apply, validate_apply, ApplyAction, ApplyError, ApplyEvent, ApplyOutcome,
    ApplyPlan, Config,
};
use wallswitch::fsmodel::FsModel;
use wallswitch::image::Image;

fn image(path: &str) -> Image {
    Image {
        name: "x.png".to_string(),
        img_path: path.to_string(),
        thumbnail_path: String::new(),
    }
}

fn full_config() -> Config {
    Config {
        current_wallpaper: Some("/cfg/wall".to_string()),
        post_script: Some("notify-compositor".to_string()),
        wallpaper_dir: Some("/walls".to_string()),
        allowed_extensions: vec!["png".to_string()],
    }
}

fn plan(link: &str, img: &str) -> ApplyPlan {
    ApplyPlan {
        link_path: link.to_string(),
        image_path: img.to_string(),
        post_script: "notify-compositor".to_string(),
    }
}

#[test]
fn validate_missing_current_wallpaper_fails_fast() {
    let mut config = full_config();
    config.current_wallpaper = None;
    let r = validate_apply(&image("/img/x.png"), &config);
    assert_eq!(r.unwrap_err(), ApplyError::CurrentWallpaperNotConfigured);
}

#[test]
fn validate_missing_post_script_fails_fast() {
    let mut config = full_config();
    config.post_script = None;
    let r = validate_apply(&image("/img/x.png"), &config);
    assert_eq!(r.unwrap_err(), ApplyError::PostScriptNotConfigured);
}

#[test]
fn validate_builds_the_plan() {
    let r = validate_apply(&image("/img/x.png"), &full_config()).unwrap();
    assert_eq!(r.link_path, "/cfg/wall");
    assert_eq!(r.image_path, "/img/x.png");
    assert_eq!(r.post_script, "notify-compositor");
}

#[test]
fn apply_error_message_text() {
    assert_eq!(
        ApplyError::CurrentWallpaperNotConfigured.message(),
        "Current wallpaper path not configured"
    );
    assert_eq!(
        ApplyError::PostScriptNotConfigured.message(),
        "Post script not configured"
    );
}

#[test]
fn apply_with_missing_link_succeeds() {
    // The link path does not exist yet: removal is a no-op, not an error.
    let mut fs = FsModel::new();
    let p = plan("/cfg/wall", "/img/x.png");
    let outcome = run_apply(&mut fs, &p, true, true);
    assert_eq!(outcome, ApplyOutcome::Completed);
    let target = fs.resolve(&"/cfg/wall".to_string()).unwrap();
    assert_eq!(target, "/img/x.png");
}

#[test]
fn apply_twice_points_at_second_image() {
    let mut fs = FsModel::new();
    let link = "/cfg/wall".to_string();
    let mut script_runs = 0;
    for img in ["/img/first.png", "/img/second.png"] {
        let outcome = run_apply(&mut fs, &plan(&link, img), true, true);
        if outcome != ApplyOutcome::SwapFailed {
            script_runs += 1;
        }
    }
    assert_eq!(fs.resolve(&link).unwrap(), "/img/second.png");
    assert_eq!(script_runs, 2);
}

#[test]
fn script_failure_does_not_revert_the_swap() {
    let mut fs = FsModel::new();
    let p = plan("/cfg/wall", "/img/x.png");
    let outcome = run_apply(&mut fs, &p, true, false);
    assert_eq!(outcome, ApplyOutcome::ScriptFailed);
    assert_eq!(fs.resolve(&"/cfg/wall".to_string()).unwrap(), "/img/x.png");
}

#[test]
fn link_failure_skips_the_script() {
    let mut fs = FsModel::new();
    fs.create_link(&"/cfg/wall".to_string(), &"/img/old.png".to_string());
    let p = plan("/cfg/wall", "/img/x.png");
    let outcome = run_apply(&mut fs, &p, false, true);
    assert_eq!(outcome, ApplyOutcome::SwapFailed);
    // The old entry was removed before the failing link step.
    assert!(fs.resolve(&"/cfg/wall".to_string()).is_none());
}

#[test]
fn scenario_apply_installs_link_and_runs_script_once() {
    // apply(image=/img/x.png) with current_wallpaper=/cfg/wall, initially
    // absent: afterwards /cfg/wall resolves to /img/x.png and the script
    // ran exactly once.
    let config = full_config();
    let p = validate_apply(&image("/img/x.png"), &config).unwrap();
    let mut fs = FsModel::new();
    assert!(fs.resolve(&"/cfg/wall".to_string()).is_none());
    let mut script_runs = 0;
    let outcome = run_apply(&mut fs, &p, true, true);
    if outcome != ApplyOutcome::SwapFailed {
        script_runs += 1;
    }
    assert_eq!(fs.resolve(&"/cfg/wall".to_string()).unwrap(), "/img/x.png");
    assert_eq!(script_runs, 1);
    assert_eq!(outcome, ApplyOutcome::Completed);
}

#[test]
fn next_action_follows_the_policy() {
    assert_eq!(next_action(&ApplyEvent::Start), ApplyAction::RemoveCurrent);
    assert_eq!(next_action(&ApplyEvent::CurrentRemoved), ApplyAction::CreateLink);
    assert_eq!(next_action(&ApplyEvent::LinkCreated), ApplyAction::RunScript);
    assert_eq!(next_action(&ApplyEvent::LinkFailed), ApplyAction::Finish);
    assert_eq!(next_action(&ApplyEvent::ScriptSucceeded), ApplyAction::Finish);
    assert_eq!(next_action(&ApplyEvent::ScriptFailed), ApplyAction::Finish);
}

#[test]
fn model_links_shadow_and_remove() {
    let mut fs = FsModel::new();
    let a = "/a".to_string();
    let b = "/b".to_string();
    assert!(fs.resolve(&a).is_none());
    fs.create_link(&a, &"t1".to_string());
    fs.create_link(&b, &"t2".to_string());
    assert_eq!(fs.resolve(&a).unwrap(), "t1");
    fs.create_link(&a, &"t3".to_string());
    assert_eq!(fs.resolve(&a).unwrap(), "t3");
    fs.remove_link(&a);
    assert!(fs.resolve(&a).is_none());
    assert_eq!(fs.resolve(&b).unwrap(), "t2");
    fs.remove_link(&b);
    fs.remove_link(&b); // removing a missing entry is a no-op
    assert!(fs.resolve(&b).is_none());
}
