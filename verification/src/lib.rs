//! Self-update for command-line tools that ship as binaries in GitHub releases.
//!
//! A host program describes its tool in an [`UpdaterConfig`], and the machine it runs on in a
//! [`Host`]. An [`Updater`] then offers
//!
//! - [`Updater::current_status`], a report on what is installed and what is staged;
//! - [`Updater::check_latest`], which finds the newest published release that has the assets for
//!   the platform. The platforms of a release are not published at once, so that the newest
//!   release often lacks some: the releases are looked at newest first, a bounded number of them,
//!   and those that are passed over are on record;
//! - [`Updater::stage_next`], which downloads the archive of a release, checks it against its
//!   SHA-256 checksum, and puts the binary in it at `<install dir>/<tool>_next`;
//! - [`Updater::promote_next`], which renames that to `<install dir>/<tool>`;
//! - [`Updater::run_update`], which does all of this where there is something newer.
//!
//! [`StartupFlow`] is the hook at the start of a tool that puts a staged update in place, and
//! [`UpdateTool`] describes the operations as tools that a program offers to others.
//!
//! # Flows
//!
//! The library decides, and leaves it to the program to act. Each operation is a flow that begins
//! with a [`Step`]: either something to do, an [`Action`], or the end. The program performs the
//! action and advances the flow with the [`Event`] that came of it. So all that depends on the
//! network, the disk and other programs comes in as plain values, and what the library makes of
//! them is proved: the contract of each function says what comes of every event, and the
//! functions named `law_..` state what follows for whole flows, whatever the events are. Those in
//! [`laws`] say of each operation how what comes out relates to what goes in, apart from how it is
//! defined.
//!
//! # Platforms
//!
//! Linux, macOS and `x86_64` Windows have release targets. On Unix a staged binary is made
//! executable and renamed over the installed one. Windows does not let go of a binary that runs:
//! there the update stays staged as `<tool>_next.exe` where `<tool>.exe` exists, and the user is
//! told what to do.

pub mod check;
pub mod checksum;
pub mod config;
pub mod effects;
pub mod failure;
pub mod host;
pub mod http;
pub mod json;
pub mod laws;
pub mod outside;
pub mod promote;
pub mod release;
pub mod select;
pub mod stage;
pub mod startup;
pub mod text;
pub mod tools;
pub mod update;
pub mod updater;
pub mod version;

pub use check::CheckFlow;
pub use config::{AssetNames, AssetStrategy, GhOutput, UpdaterConfig, DEFAULT_RELEASE_LOOKBACK};
pub use effects::{Action, Event, Step};
pub use failure::{Failure, UpdateError};
pub use host::{release_target, Family, Host, InstallPath, LocationTexts, Locations};
pub use http::{HttpReply, HttpRequest};
pub use promote::PromoteFlow;
pub use release::{LatestReleaseInfo, ReleaseAssetInfo, SkippedRelease};
pub use stage::StageFlow;
pub use startup::{StartupAction, StartupEvent, StartupFlow, StartupStep};
pub use tools::{EmptyArgs, UpdateTool};
pub use update::{RunFlow, StatusFlow, UpdateOutcome, UpdateStatus};
pub use updater::Updater;
