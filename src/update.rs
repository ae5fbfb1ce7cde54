//! Replacing the running executable with the latest published build.
use vstd::prelude::*;

use crate::error::LatError;
use crate::install::{is_success, is_success_spec, FetchResult};
use crate::json::{json_array_string_pairs, pair_views, parse_array_string_pairs};
use crate::text::{concat_str, opt_view, same_text};

verus! {

/// Where the metadata of the latest release is published; its assets are the builds.
pub const LATEST_RELEASE_URL: &'static str = "https://api.github.com/repos/lat-cli/lat/releases/latest";

/// The name of the temporary file that the new build is written to, beside the executable.
pub const TEMP_FILE_NAME: &'static str = "lat.tmp";

/// Where an update stands.
#[derive(Clone, Copy, Debug, PartialEq, Eq, Structural)]
pub enum UpdateStage {
    /// The metadata of the latest release was asked for.
    FetchingRelease,
    /// The build was asked for.
    Fetching,
    /// The build is being written to the temporary file.
    WritingTemp,
    /// The current executable is being removed.
    RemovingCurrent,
    /// The temporary file is being renamed to the executable's name.
    Renaming,
    /// The temporary file is being removed after a failure.
    CleaningUp,
    /// Nothing more to do.
    Finished,
}

/// What happened to the last step.
#[derive(Clone, Copy, Debug, PartialEq, Eq, Structural)]
pub enum UpdateEvent {
    /// The build came back with this status and this many bytes.
    Fetched { status: u16, len: u64 },
    /// No response came.
    FetchFailed,
    /// The file operation asked for succeeded.
    StepDone,
    /// The file operation asked for failed.
    StepFailed,
}

/// How an update ended.
#[derive(Clone, Copy, Debug, PartialEq, Eq, Structural)]
pub enum UpdateOutcome {
    /// The executable was replaced.
    Updated,
    /// The update failed; the executable is where it was.
    Failed { error: LatError },
    /// The executable was removed and the new build could not take its place: there is no
    /// executable at that path until it is put back by hand.
    Broken,
}

/// What the caller does next.
#[derive(Debug)]
pub enum UpdateAction {
    /// Request `url`: the release metadata (hand it to `on_release`) or the build (hand back
    /// status and size).
    Fetch { url: String },
    /// Write the build to `path`.
    WriteTemp { path: String },
    /// Remove the file at `path`.
    Remove { path: String },
    /// Rename `from` to `to`.
    Rename { from: String, to: String },
    /// Stop and report.
    Report { outcome: UpdateOutcome },
}

/// An update of the executable `exe_path` with the release asset `asset_name`, through the
/// temporary file `temp_path`.
#[derive(Debug)]
pub struct UpdateSession {
    pub stage: UpdateStage,
    pub asset_name: String,
    pub temp_path: String,
    pub exe_path: String,
}

/// A path under a directory.
pub open spec fn path_in(dir: Seq<char>, name: Seq<char>) -> Seq<char> {
    dir + "/"@ + name
}

/// The stage after `event` in `stage`.
pub open spec fn next_stage(stage: UpdateStage, event: UpdateEvent) -> UpdateStage {
    match stage {
        UpdateStage::Fetching => match event {
            UpdateEvent::Fetched { status, len } => if is_success_spec(status) && len > 0 {
                UpdateStage::WritingTemp
            } else {
                UpdateStage::Finished
            },
            _ => UpdateStage::Finished,
        },
        UpdateStage::WritingTemp => if event == UpdateEvent::StepDone {
            UpdateStage::RemovingCurrent
        } else {
            UpdateStage::CleaningUp
        },
        UpdateStage::RemovingCurrent => if event == UpdateEvent::StepDone {
            UpdateStage::Renaming
        } else {
            UpdateStage::CleaningUp
        },
        _ => UpdateStage::Finished,
    }
}

/// The action that goes with moving from `stage` by `event`.
pub open spec fn next_action_spec(
    stage: UpdateStage,
    event: UpdateEvent,
    temp: Seq<char>,
    exe: Seq<char>,
    action: UpdateAction,
) -> bool {
    match next_stage(stage, event) {
        UpdateStage::WritingTemp => action matches UpdateAction::WriteTemp { path } && path@ == temp,
        UpdateStage::RemovingCurrent => action matches UpdateAction::Remove { path } && path@
            == exe,
        UpdateStage::Renaming => action matches UpdateAction::Rename { from, to } && from@ == temp
            && to@ == exe,
        UpdateStage::CleaningUp => action matches UpdateAction::Remove { path } && path@ == temp,
        _ => action matches UpdateAction::Report { outcome } && outcome == match stage {
            UpdateStage::Fetching => UpdateOutcome::Failed { error: LatError::TransportFailure },
            UpdateStage::Renaming => if event == UpdateEvent::StepDone {
                UpdateOutcome::Updated
            } else {
                UpdateOutcome::Broken
            },
            _ => UpdateOutcome::Failed { error: LatError::FilesystemFailure },
        },
    }
}

/// The download link of the last asset named `name`, from (name, link) pairs.
pub open spec fn asset_url(items: Seq<(Option<Seq<char>>, Option<Seq<char>>)>, name: Seq<char>) -> Option<
    Seq<char>,
>
    decreases items.len(),
{
    if items.len() == 0 {
        None
    } else if items.last().0 == Some(name) && items.last().1 is Some {
        items.last().1
    } else {
        asset_url(items.drop_last(), name)
    }
}

/// The assets of a release body: (name, download link) of each element of its `assets` array.
pub open spec fn release_assets(body: Seq<char>) -> Option<Seq<(Option<Seq<char>>, Option<Seq<char>>)>> {
    json_array_string_pairs(body, "/assets"@, "name"@, "browser_download_url"@)
}

/// The download link of the last asset named `name`.
fn find_asset(items: &Vec<(Option<String>, Option<String>)>, name: &str) -> (r: Option<String>)
    ensures
        opt_view(r) == asset_url(pair_views(items@), name@),
{
    let ghost iv = pair_views(items@);
    let mut found: Option<String> = None;
    let mut i: usize = 0;
    while i < items.len()
        invariant
            i <= items@.len(),
            iv == pair_views(items@),
            opt_view(found) == asset_url(iv.take(i as int), name@),
        decreases items@.len() - i,
    {
        let ghost t = iv.take(i + 1);
        assert(t.drop_last() =~= iv.take(i as int));
        assert(t.last() == iv[i as int]);
        match (&items[i].0, &items[i].1) {
            (Some(n), Some(u)) => {
                if same_text(n.as_str(), name) {
                    found = Some(u.clone());
                }
            },
            _ => {},
        }
        i = i + 1;
    }
    assert(iv.take(iv.len() as int) =~= iv);
    found
}

/// Starts an update of the executable `exe_name` in `bin_dir`: asks for the latest release.
pub fn init(bin_dir: &str, exe_name: &str) -> (r: (UpdateSession, UpdateAction))
    ensures
        r.0.stage == UpdateStage::FetchingRelease,
        r.0.asset_name@ == exe_name@,
        r.0.temp_path@ == path_in(bin_dir@, TEMP_FILE_NAME@),
        r.0.exe_path@ == path_in(bin_dir@, exe_name@),
        r.1 matches UpdateAction::Fetch { url } && url@ == LATEST_RELEASE_URL@,
{
    let dir = concat_str(bin_dir, "/");
    let session = UpdateSession {
        stage: UpdateStage::FetchingRelease,
        asset_name: exe_name.to_owned(),
        temp_path: concat_str(dir.as_str(), TEMP_FILE_NAME),
        exe_path: concat_str(dir.as_str(), exe_name),
    };
    (session, UpdateAction::Fetch { url: LATEST_RELEASE_URL.to_owned() })
}

impl UpdateSession {
    /// Moves the update on by the release metadata: the build to fetch is the asset named like
    /// the executable. A failed request, a body without an `assets` array, or no such asset ends
    /// the update with the executable untouched.
    pub fn on_release(&mut self, response: FetchResult) -> (r: UpdateAction)
        requires
            old(self).stage == UpdateStage::FetchingRelease,
        ensures
            final(self).asset_name == old(self).asset_name,
            final(self).temp_path == old(self).temp_path,
            final(self).exe_path == old(self).exe_path,
            match response {
                FetchResult::Received { status, body } if is_success_spec(status) => match release_assets(
                    body@,
                ) {
                    Some(items) => match asset_url(items, old(self).asset_name@) {
                        Some(u) => final(self).stage == UpdateStage::Fetching && (r matches UpdateAction::Fetch {
                            url,
                        } && url@ == u),
                        None => final(self).stage == UpdateStage::Finished && r == (UpdateAction::Report {
                            outcome: UpdateOutcome::Failed { error: LatError::ResolutionNotFound },
                        }),
                    },
                    None => final(self).stage == UpdateStage::Finished && r == (UpdateAction::Report {
                        outcome: UpdateOutcome::Failed { error: LatError::DecodeFailure },
                    }),
                },
                _ => final(self).stage == UpdateStage::Finished && r == (UpdateAction::Report {
                    outcome: UpdateOutcome::Failed { error: LatError::TransportFailure },
                }),
            },
    {
        let body = match response {
            FetchResult::Received { status, body } => {
                if !is_success(status) {
                    self.stage = UpdateStage::Finished;
                    return UpdateAction::Report {
                        outcome: UpdateOutcome::Failed { error: LatError::TransportFailure },
                    };
                }
                body
            },
            FetchResult::Failed => {
                self.stage = UpdateStage::Finished;
                return UpdateAction::Report {
                    outcome: UpdateOutcome::Failed { error: LatError::TransportFailure },
                };
            },
        };
        let items = match parse_array_string_pairs(
            body.as_str(),
            "/assets",
            "name",
            "browser_download_url",
        ) {
            Some(v) => v,
            None => {
                self.stage = UpdateStage::Finished;
                return UpdateAction::Report {
                    outcome: UpdateOutcome::Failed { error: LatError::DecodeFailure },
                };
            },
        };
        match find_asset(&items, self.asset_name.as_str()) {
            Some(url) => {
                self.stage = UpdateStage::Fetching;
                UpdateAction::Fetch { url }
            },
            None => {
                self.stage = UpdateStage::Finished;
                UpdateAction::Report {
                    outcome: UpdateOutcome::Failed { error: LatError::ResolutionNotFound },
                }
            },
        }
    }

    /// Moves the update on by what happened to the last step. The current executable is removed
    /// only once the new build is written; a failure before that removes the temporary file and
    /// leaves the executable alone; a failed rename after the removal is reported as broken.
    pub fn step(&mut self, event: UpdateEvent) -> (r: UpdateAction)
        requires
            old(self).stage != UpdateStage::Finished,
            old(self).stage != UpdateStage::FetchingRelease,
        ensures
            final(self).stage == next_stage(old(self).stage, event),
            final(self).asset_name == old(self).asset_name,
            final(self).temp_path == old(self).temp_path,
            final(self).exe_path == old(self).exe_path,
            next_action_spec(old(self).stage, event, old(self).temp_path@, old(self).exe_path@, r),
    {
        let done = event == UpdateEvent::StepDone;
        match self.stage {
            UpdateStage::Fetching => {
                let fetched = match event {
                    UpdateEvent::Fetched { status, len } => is_success(status) && len > 0,
                    _ => false,
                };
                if fetched {
                    self.stage = UpdateStage::WritingTemp;
                    UpdateAction::WriteTemp { path: self.temp_path.clone() }
                } else {
                    self.stage = UpdateStage::Finished;
                    UpdateAction::Report {
                        outcome: UpdateOutcome::Failed { error: LatError::TransportFailure },
                    }
                }
            },
            UpdateStage::WritingTemp => {
                if done {
                    self.stage = UpdateStage::RemovingCurrent;
                    UpdateAction::Remove { path: self.exe_path.clone() }
                } else {
                    self.stage = UpdateStage::CleaningUp;
                    UpdateAction::Remove { path: self.temp_path.clone() }
                }
            },
            UpdateStage::RemovingCurrent => {
                if done {
                    self.stage = UpdateStage::Renaming;
                    UpdateAction::Rename { from: self.temp_path.clone(), to: self.exe_path.clone() }
                } else {
                    self.stage = UpdateStage::CleaningUp;
                    UpdateAction::Remove { path: self.temp_path.clone() }
                }
            },
            UpdateStage::Renaming => {
                self.stage = UpdateStage::Finished;
                let outcome = if done {
                    UpdateOutcome::Updated
                } else {
                    UpdateOutcome::Broken
                };
                UpdateAction::Report { outcome }
            },
            _ => {
                self.stage = UpdateStage::Finished;
                UpdateAction::Report {
                    outcome: UpdateOutcome::Failed { error: LatError::FilesystemFailure },
                }
            },
        }
    }
}

} // verus!
