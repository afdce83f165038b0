//! Destination-side decisions: what a delivery attempt means for each
//! destination kind.  The embedding performs the SMTP session, spawns
//! the child process, and reports outcomes back into these functions.

use crate::config::{
    AuthMethod, Encryption, ExecDestinationConfig, SmtpDestinationConfig, TestDestinationConfig,
};
use crate::mail::Mail;
use vstd::prelude::*;

verus! {

/// The synthetic destination's state: it fails its first
/// `fails_remaining` deliveries and accepts every one after that.
pub struct TestDestinationState {
    pub fails_remaining: u16,
}

impl TestDestinationState {
    /// A fresh synthetic destination.
    pub fn new(config: &TestDestinationConfig) -> (s: Self)
        ensures
            s.fails_remaining == config.fail_n_first,
    {
        TestDestinationState { fails_remaining: config.fail_n_first }
    }

    /// One delivery attempt: fails while failures remain, counting one
    /// off; accepts afterwards.
    pub fn deliver(&mut self, mail: &Mail) -> (accepted: bool)
        ensures
            accepted == (old(self).fails_remaining == 0),
            old(self).fails_remaining == 0 ==> final(self).fails_remaining == 0,
            old(self).fails_remaining > 0 ==> final(self).fails_remaining == old(
                self,
            ).fails_remaining - 1,
    {
        if self.fails_remaining > 0 {
            self.fails_remaining = self.fails_remaining - 1;
            false
        } else {
            true
        }
    }
}

/// Whether a failed delivery is reported back to the hub for retry:
/// permanent rejections (for SMTP, a 5xx reply) drop the mail with a
/// warning, everything else is transient and is handed back.
pub fn report_failed_delivery(permanent: bool) -> (report: bool)
    ensures
        report == !permanent,
{
    !permanent
}

#[verifier::external_type_specification]
#[verifier::external_body]
pub struct ExAddress(lettre::Address);

/// Whether lettre accepts these characters as a mail address.
pub uninterp spec fn address_accepted(s: Seq<char>) -> bool;

/// Relies on lettre::Address's FromStr impl: acceptance is a check of
/// the characters alone (local part and domain of `user@domain`).
#[verifier::external_body]
fn parse_address(s: &String) -> (r: Option<lettre::Address>)
    ensures
        r is Some <==> address_accepted(s@),
{
    s.as_str().parse::<lettre::Address>().ok()
}

/// The authentication mechanism offered to the SMTP server.
pub enum SmtpAuthMechanism {
    Plain,
    Login,
}

/// Everything the embedding needs to open the SMTP session and address
/// each mail: taken from the configuration, with the recipient already
/// validated.
pub struct SmtpPlan {
    pub server: String,
    pub port: u16,
    pub encryption: Encryption,
    pub credentials: Option<(String, String)>,
    pub mechanism: Option<SmtpAuthMechanism>,
    pub recipient: lettre::Address,
}

/// The SMTP destination refuses to start when its configured recipient
/// is not a mail address.
#[derive(Debug)]
pub enum SmtpPlanError {
    InvalidRecipient,
}

/// Builds the session plan of an SMTP destination: succeeds exactly
/// when the configured recipient parses as a mail address, and carries
/// the server, port, encryption and the credentials the configured
/// authentication calls for.
pub fn smtp_plan(config: &SmtpDestinationConfig) -> (r: Result<SmtpPlan, SmtpPlanError>)
    ensures
        r is Ok <==> address_accepted(config.recipient@),
        r matches Ok(p) ==> {
            &&& p.server@ == config.server@
            &&& p.port == config.port
            &&& p.encryption == config.encryption
            &&& match config.auth {
                Some(AuthMethod::Plain { ref user, ref password }) => p.credentials matches Some(
                    c,
                ) && c.0@ == user@ && c.1@ == password@ && p.mechanism matches Some(
                    SmtpAuthMechanism::Plain,
                ),
                Some(AuthMethod::Login { ref user, ref password }) => p.credentials matches Some(
                    c,
                ) && c.0@ == user@ && c.1@ == password@ && p.mechanism matches Some(
                    SmtpAuthMechanism::Login,
                ),
                _ => p.credentials is None && p.mechanism is None,
            }
        },
{
    let recipient = match parse_address(&config.recipient) {
        Some(a) => a,
        None => {
            return Err(SmtpPlanError::InvalidRecipient);
        },
    };
    let (credentials, mechanism) = match &config.auth {
        Some(AuthMethod::Plain { user, password }) => (
            Some((user.clone(), password.clone())),
            Some(SmtpAuthMechanism::Plain),
        ),
        Some(AuthMethod::Login { user, password }) => (
            Some((user.clone(), password.clone())),
            Some(SmtpAuthMechanism::Login),
        ),
        _ => (None, None),
    };
    Ok(
        SmtpPlan {
            server: config.server.clone(),
            port: config.port,
            encryption: match config.encryption {
                Encryption::Unencrypted => Encryption::Unencrypted,
                Encryption::Ssl => Encryption::Ssl,
                Encryption::Starttls => Encryption::Starttls,
            },
            credentials,
            mechanism,
            recipient,
        },
    )
}

/// Everything the embedding needs for one run of the child process of
/// an exec destination: the program, its arguments, the environment
/// with the two fixed variables appended last (so they win), and the
/// bytes for the child's stdin.
pub struct ExecPlan {
    pub executable: String,
    pub args: Vec<String>,
    pub env: Vec<(String, String)>,
    pub stdin_bytes: Vec<u8>,
}

/// The user-configured environment pairs, before the fixed variables.
pub open spec fn spec_env_base(config: ExecDestinationConfig) -> Seq<(String, String)> {
    match config.environment {
        Some(e) => e@,
        None => Seq::empty(),
    }
}

/// Builds the plan for delivering one mail through a child process:
/// the configured arguments and environment are passed through, and
/// `IDLEMAIL_DESTINATION` / `IDLEMAIL_SOURCE` are bound to the
/// destination's and the mail's source name.
pub fn exec_plan(dstname: &String, config: &ExecDestinationConfig, mail: &Mail) -> (p: ExecPlan)
    ensures
        p.executable@ == config.executable@,
        match config.arguments {
            Some(ref a) => p.args@.len() == a@.len() && forall|i: int|
                0 <= i < a@.len() ==> (#[trigger] p.args@[i])@ == a@[i]@,
            None => p.args@.len() == 0,
        },
        p.env@.len() == spec_env_base(*config).len() + 2,
        forall|i: int|
            0 <= i < spec_env_base(*config).len() ==> (#[trigger] p.env@[i]).0@ == spec_env_base(
                *config,
            )[i].0@ && p.env@[i].1@ == spec_env_base(*config)[i].1@,
        p.env@[spec_env_base(*config).len() as int].0@ == "IDLEMAIL_DESTINATION"@,
        p.env@[spec_env_base(*config).len() as int].1@ == dstname@,
        p.env@[spec_env_base(*config).len() as int + 1].0@ == "IDLEMAIL_SOURCE"@,
        p.env@[spec_env_base(*config).len() as int + 1].1@ == mail.from_src@,
        p.stdin_bytes@ == mail.data@,
{
    let mut args: Vec<String> = Vec::new();
    match &config.arguments {
        Some(a) => {
            let n = a.len();
            for i in 0..n
                invariant
                    n == a.len(),
                    args@.len() == i,
                    forall|k: int| 0 <= k < i ==> (#[trigger] args@[k])@ == a@[k]@,
            {
                args.push(a[i].clone());
            }
        },
        None => {},
    }
    let mut env: Vec<(String, String)> = Vec::new();
    match &config.environment {
        Some(e) => {
            let n = e.len();
            for i in 0..n
                invariant
                    n == e.len(),
                    env@.len() == i,
                    forall|k: int|
                        0 <= k < i ==> (#[trigger] env@[k]).0@ == e@[k].0@ && env@[k].1@
                            == e@[k].1@,
            {
                env.push((e[i].0.clone(), e[i].1.clone()));
            }
        },
        None => {},
    }
    env.push((String::from_str("IDLEMAIL_DESTINATION"), dstname.clone()));
    env.push((String::from_str("IDLEMAIL_SOURCE"), mail.from_src.clone()));
    let p = ExecPlan {
        executable: config.executable.clone(),
        args,
        env,
        stdin_bytes: vstd::slice::slice_to_vec(mail.data.as_slice()),
    };
    p
}

/// How one run of the child ended, as the embedding observed it.
pub enum ChildRun {
    /// The program could not be spawned.
    SpawnFailed,
    /// The mail could not be piped to the child's stdin.
    PipeFailed,
    /// The child could not be awaited.
    WaitFailed,
    /// The child exited; `success` is a zero exit status.
    Exited { success: bool },
}

/// Whether a child run counts as a failed delivery: only a clean zero
/// exit is a success, and every failure of an exec destination is
/// transient (reported for retry).
pub fn exec_report_failure(r: &ChildRun) -> (report: bool)
    ensures
        report == !(r matches ChildRun::Exited { success: true }),
{
    match r {
        ChildRun::Exited { success } => !*success,
        _ => true,
    }
}

} // verus!
