//! Announcing a finished run: when, over which channels, with what words, and
//! what is reported where a channel fails.

use vstd::prelude::*;
use vstd::string::*;
use crate::duration::{format_duration, rendered_duration, Duration};
use crate::model::RunStatus;
use crate::outside::{quote, quoted};
use crate::runner::CommandLine;
use crate::text::views;
use crate::text::{decimal, push_decimal, push_signed_decimal, signed_decimal, str_eq};

verus! {

/// A finished run, as it is announced.
#[derive(Debug, Clone)]
pub struct Event {
    pub name: String,
    pub source: String,
    pub status: String,
    pub exit_code: i32,
    pub duration: Duration,
    /// Nanoseconds since the Unix epoch, UTC.
    pub started_at: i128,
    pub command_preview: String,
    pub stderr_tail: Option<String>,
}

/// The channels over which runs are announced.
#[derive(Debug, Clone)]
pub struct Manager {
    pub desktop_enabled: bool,
    pub webhook_url: String,
    pub webhook_timeout: Duration,
}

/// Whether a run that ended with `status` is announced under `policy`:
/// never under `never`, always under `always`, else where it failed.
pub open spec fn announced(policy: Seq<char>, status: RunStatus) -> bool {
    if policy == "never"@ {
        false
    } else if policy == "always"@ {
        true
    } else {
        status == RunStatus::Failed
    }
}

/// Whether a run that ended with `status` is announced under `policy`.
pub fn should_notify(policy: &str, status: RunStatus) -> (r: bool)
    ensures
        r == announced(policy@, status),
{
    if str_eq(policy, "never") {
        false
    } else if str_eq(policy, "always") {
        true
    } else {
        status == RunStatus::Failed
    }
}

/// The failure of a channel, after the channel's label; nothing where it did
/// not fail.
pub open spec fn channel_error(label: Seq<char>, error: Option<String>) -> Seq<Seq<char>> {
    match error {
        Some(e) => seq![label + e@],
        None => Seq::empty(),
    }
}

/// The failures of the two channels, the desktop's first.
pub open spec fn channel_errors(desktop: Option<String>, webhook: Option<String>) -> Seq<Seq<char>> {
    channel_error("desktop: "@, desktop) + channel_error("webhook: "@, webhook)
}

/// The title of the desktop notification.
pub open spec fn title_of(event: Event) -> Seq<char> {
    event.name@ + " "@ + event.status@
}

/// The body of the desktop notification.
pub open spec fn body_of(event: Event) -> Seq<char> {
    "exit "@ + signed_decimal(event.exit_code as int) + ", duration "@ + rendered_duration(
        event.duration@,
    )
}

/// The title of the desktop notification.
pub fn desktop_title(event: &Event) -> (r: String)
    ensures
        r@ == title_of(*event),
{
    let mut r = event.name.clone();
    r.append(" ");
    r.append(event.status.as_str());
    r
}

/// The body of the desktop notification.
pub fn desktop_body(event: &Event) -> (r: String)
    ensures
        r@ == body_of(*event),
{
    let mut r = "exit ".to_string();
    push_signed_decimal(&mut r, event.exit_code as i128);
    r.append(", duration ");
    r.append(format_duration(event.duration).as_str());
    r
}

/// The kind of desktop that is notified.
#[derive(Debug, Clone, Copy, PartialEq, Eq, Structural)]
pub enum Desktop {
    MacOs,
    Linux,
    Other,
}

/// The AppleScript that shows the notification.
pub open spec fn script_of(event: Event) -> Seq<char> {
    "display notification "@ + quoted(body_of(event)) + " with title "@ + quoted(title_of(event))
}

/// Whether `line` is the command that notifies a desktop of the kind
/// `desktop` of `event`.
pub open spec fn notifies(line: CommandLine, event: Event, desktop: Desktop) -> bool {
    match desktop {
        Desktop::MacOs => line.program@ == "osascript"@ && views(line.args@) == seq![
            "-e"@,
            script_of(event),
        ],
        Desktop::Linux => line.program@ == "notify-send"@ && views(line.args@) == seq![
            title_of(event),
            body_of(event),
        ],
        Desktop::Other => false,
    }
}

/// The command that notifies the desktop of `event`; none on a desktop of
/// another kind, which is not notified.
pub fn desktop_command(event: &Event, desktop: Desktop) -> (r: Option<CommandLine>)
    ensures
        match r {
            Some(line) => notifies(line, *event, desktop),
            None => desktop == Desktop::Other,
        },
{
    let title = desktop_title(event);
    let body = desktop_body(event);
    match desktop {
        Desktop::MacOs => {
            let mut script = "display notification ".to_string();
            script.append(quote(body.as_str()).as_str());
            script.append(" with title ");
            script.append(quote(title.as_str()).as_str());
            let mut args: Vec<String> = Vec::new();
            args.push("-e".to_string());
            args.push(script);
            assert(views(args@) =~= seq!["-e"@, script_of(*event)]);
            Some(CommandLine { program: "osascript".to_string(), args })
        },
        Desktop::Linux => {
            let mut args: Vec<String> = Vec::new();
            args.push(title);
            args.push(body);
            assert(views(args@) =~= seq![title_of(*event), body_of(*event)]);
            Some(CommandLine { program: "notify-send".to_string(), args })
        },
        Desktop::Other => None,
    }
}

/// How the answer to the webhook request is judged: well where its status is
/// from 200 to 299.
pub fn webhook_status(status: u16) -> (r: Result<(), String>)
    ensures
        match r {
            Ok(_) => 200 <= status <= 299,
            Err(e) => !(200 <= status <= 299) && e@ == "unexpected status "@ + decimal(
                status as nat,
            ),
        },
{
    if 200 <= status && status <= 299 {
        Ok(())
    } else {
        let mut e = "unexpected status ".to_string();
        push_decimal(&mut e, status as u128);
        Err(e)
    }
}

impl Manager {
    /// Whether the desktop is notified.
    pub fn uses_desktop(&self) -> (r: bool)
        ensures
            r == self.desktop_enabled,
    {
        self.desktop_enabled
    }

    /// Whether the webhook is called: where a URL is set.
    pub fn uses_webhook(&self) -> (r: bool)
        ensures
            r == (self.webhook_url@.len() > 0),
    {
        !self.webhook_url.as_str().is_empty()
    }

    /// How long the webhook may take: five seconds where no time is set.
    pub fn request_timeout(&self) -> (r: Duration)
        ensures
            r == if self.webhook_timeout@ == 0 {
                Duration::of_secs(5)
            } else {
                self.webhook_timeout
            },
    {
        if self.webhook_timeout.is_zero() {
            Duration::from_secs(5)
        } else {
            self.webhook_timeout
        }
    }

    /// What the announcement came to, given how each channel failed, if it
    /// did: well where none failed, else the failures, joined with `; `.
    pub fn report(desktop: Option<String>, webhook: Option<String>) -> (r: Result<(), String>)
        ensures
            match r {
                Ok(_) => desktop is None && webhook is None,
                Err(e) => (desktop is Some || webhook is Some) && e@ == crate::text::joined(
                    channel_errors(desktop, webhook),
                    "; "@,
                ),
            },
    {
        let mut errors: Vec<String> = Vec::new();
        if let Some(e) = &desktop {
            errors.push(crate::text::concat("desktop: ", e.as_str()));
        }
        if let Some(e) = &webhook {
            errors.push(crate::text::concat("webhook: ", e.as_str()));
        }
        assert(crate::text::views(errors@) =~= channel_errors(desktop, webhook));
        if errors.len() == 0 {
            Ok(())
        } else {
            Err(crate::text::join(&errors, "; "))
        }
    }
}

} // verus!
