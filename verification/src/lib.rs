//! A reliable front end for `ossutil`, the command line tool of an object store: its settings, the
//! command lines that it runs, and what it makes of what they print.
//!
//! Nothing here touches a disk, a process or a window. The program around the library does that, and
//! hands over what it found: whether a path exists, which bytes arrived, how a process ended.
//!
//! * [`config`]: the settings, and the form in which they are stored.
//! * [`discovery`]: which `ossutil` is run, and its version.
//! * [`request`]: what the user asks for, and the address that it goes to.
//! * [`region`]: the region that an endpoint lies in.
//! * [`command`]: the command lines, and the file that the credentials stand in. No credentials stand
//!   on a command line unless the user asks for it.
//! * [`event`]: the lines that `ossutil` prints, and what the interface is told of them.
//! * [`stream`]: the output of a running transfer, cut into such lines.
//! * [`reply`]: the answers of commands that are waited for.
//! * [`session`]: the order in which a command goes, from the credentials to their removal.
//! * [`tasks`]: the transfers that are running.
//! * [`audit`]: whether an upload is complete.
//!
//! [`text`] and [`number`] hold what these share, [`pattern`] the regular expressions, and
//! [`outside`] everything that is taken on trust from other crates.

pub mod audit;
pub mod command;
pub mod config;
pub mod discovery;
pub mod event;
pub mod number;
pub mod outside;
pub mod pattern;
pub mod region;
pub mod reply;
pub mod request;
pub mod session;
pub mod stream;
pub mod tasks;
pub mod text;

pub use audit::VerifyResult;
pub use config::Account;
pub use config::ClientConfig;
pub use number::human_size;
pub use request::Auth;
pub use request::UploadRequest;
pub use tasks::AppState;
