//! Sending a mail: who it is from, who it goes to and through which
//! server. The sending itself is left to the caller.

use vstd::prelude::*;
use crate::config::Config;
use crate::text::{push_text, text_eq};

verus! {

/// The port at which the mail server is reached.
pub const SMTP_PORT: u16 = 25;

/// The seconds after which the mail server is given up.
pub const SMTP_TIMEOUT_SECS: u64 = 5;

/// What is said when there is nobody to send to.
pub const NO_RECIPIENT: &'static str =
    "DESTINATION_EMAIL not set in config. Please set it to the recipient's email address.";

/// How a mail is to be sent.
pub struct EmailPlan {
    pub sender: String,
    pub recipient: String,
    pub server: String,
    /// The login and the password, if the server is to be logged in to.
    pub credentials: Option<(String, String)>,
}

/// The sender of a mail: the configured one, and the recipient where none
/// is configured.
pub open spec fn sender_of(config: Config) -> Seq<char> {
    if config.sender_email@.len() == 0 {
        config.destination_email@
    } else {
        config.sender_email@
    }
}

/// Whether the server is to be logged in to: it is, unless it is this
/// machine or the login or the password is missing.
pub open spec fn logs_in(config: Config) -> bool {
    config.smtp_server@ != "localhost"@ && config.smtp_username@.len() > 0
        && config.smtp_password@.len() > 0
}

/// Whether `plan` is how the settings say a mail is sent.
pub open spec fn plans(plan: EmailPlan, config: Config) -> bool {
    &&& plan.recipient@ == config.destination_email@
    &&& plan.sender@ == sender_of(config)
    &&& plan.server@ == config.smtp_server@
    &&& plan.credentials is Some == logs_in(config)
    &&& plan.credentials matches Some((login, password)) ==> login@ == config.smtp_username@
        && password@ == config.smtp_password@
}

/// Decides how a mail is to be sent. Without a recipient it is not sent at
/// all.
pub fn send_email(config: &Config) -> (r: Result<EmailPlan, String>)
    ensures
        match r {
            Ok(plan) => config.destination_email@.len() > 0 && plans(plan, *config),
            Err(e) => config.destination_email@.len() == 0 && e@ == NO_RECIPIENT@,
        },
{
    if config.destination_email.as_str().is_empty() {
        return Err(NO_RECIPIENT.to_owned());
    }
    let recipient = config.destination_email.clone();
    let sender = if config.sender_email.as_str().is_empty() {
        recipient.clone()
    } else {
        config.sender_email.clone()
    };
    let credentials = if !text_eq(config.smtp_server.as_str(), "localhost")
        && !config.smtp_username.as_str().is_empty() && !config.smtp_password.as_str().is_empty() {
        Some((config.smtp_username.clone(), config.smtp_password.clone()))
    } else {
        None
    };
    Ok(EmailPlan { sender, recipient, server: config.smtp_server.clone(), credentials })
}

/// How sending a mail ended.
pub enum EmailOutcome {
    /// The mail is on its way.
    Sent,
    /// The sender is no mail address.
    InvalidSender,
    /// The recipient is no mail address.
    InvalidRecipient,
    /// The mail could not be put together.
    NotBuilt,
    /// The relay could not be set up, for this reason.
    NoRelay(String),
    /// The server did not take the mail, for this reason.
    NotSent(String),
}

/// What is reported of a mail: that it was sent, to whom and through which
/// server, or why it was not.
pub open spec fn email_text(plan: EmailPlan, outcome: EmailOutcome) -> Result<Seq<char>, Seq<char>> {
    match outcome {
        EmailOutcome::Sent => Ok(
            "Email sent successfully to "@ + plan.recipient@ + " via "@ + plan.server@,
        ),
        EmailOutcome::InvalidSender => Err("Invalid sender email '"@ + plan.sender@ + "'"@),
        EmailOutcome::InvalidRecipient => Err(
            "Invalid recipient email '"@ + plan.recipient@ + "'"@,
        ),
        EmailOutcome::NotBuilt => Err("Failed to build email"@),
        EmailOutcome::NoRelay(why) => Err("Failed to create SMTP relay: "@ + why@),
        EmailOutcome::NotSent(why) => Err("Failed to send email: "@ + why@),
    }
}

fn framed(before: &str, inner: &str, after: &str) -> (s: String)
    ensures
        s@ == before@ + inner@ + after@,
{
    let mut s = String::new();
    push_text(&mut s, before);
    push_text(&mut s, inner);
    push_text(&mut s, after);
    s
}

/// Words how sending a mail ended.
pub fn email_report(plan: &EmailPlan, outcome: EmailOutcome) -> (r: Result<String, String>)
    ensures
        match r {
            Ok(s) => email_text(*plan, outcome) == Ok::<Seq<char>, Seq<char>>(s@),
            Err(e) => email_text(*plan, outcome) == Err::<Seq<char>, Seq<char>>(e@),
        },
{
    match outcome {
        EmailOutcome::Sent => {
            let mut s = framed("Email sent successfully to ", plan.recipient.as_str(), " via ");
            push_text(&mut s, plan.server.as_str());
            Ok(s)
        },
        EmailOutcome::InvalidSender => Err(
            framed("Invalid sender email '", plan.sender.as_str(), "'"),
        ),
        EmailOutcome::InvalidRecipient => Err(
            framed("Invalid recipient email '", plan.recipient.as_str(), "'"),
        ),
        EmailOutcome::NotBuilt => Err("Failed to build email".to_owned()),
        EmailOutcome::NoRelay(why) => {
            let s = framed("Failed to create SMTP relay: ", why.as_str(), "");
            assert(s@ =~= "Failed to create SMTP relay: "@ + why@) by {
                reveal_strlit("");
            }
            Err(s)
        },
        EmailOutcome::NotSent(why) => {
            let s = framed("Failed to send email: ", why.as_str(), "");
            assert(s@ =~= "Failed to send email: "@ + why@) by {
                reveal_strlit("");
            }
            Err(s)
        },
    }
}

} // verus!
