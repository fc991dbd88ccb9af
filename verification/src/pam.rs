//! Password login through PAM: what a service may be called, how its prompts are
//! answered, and what its replies lead to.

use vstd::prelude::*;
use vstd::string::*;

verus! {

/// The PAM service that is used where none is configured.
pub const DEFAULT_PAM_SERVICE: &'static str = "holdfast-ssh";

/// The longest name of a service.
pub const MAX_PAM_SERVICE_BYTES: usize = 64;

/// The reply that stands for success.
pub const PAM_SUCCESS: i32 = 0;

/// The reply that ends a conversation.
pub const PAM_CONV_ERR: i32 = 19;

/// A prompt whose answer is not echoed.
pub const PAM_PROMPT_ECHO_OFF: i32 = 1;

/// An error text.
pub const PAM_ERROR_MSG: i32 = 3;

/// An informational text.
pub const PAM_TEXT_INFO: i32 = 4;

/// The most prompts of a conversation.
pub const MAX_CONV_MESSAGES: usize = 32;

/// Why a service is refused.
#[derive(Debug, Clone, Copy, PartialEq, Eq, Structural)]
pub enum PamError {
    /// The name is empty, too long, starts with a full stop, or holds something
    /// else than ASCII letters, digits, `-`, `_` and `.`.
    InvalidServiceName,
}

/// Whether a byte may occur in the name of a service.
pub open spec fn service_byte(b: u8) -> bool {
    48 <= b <= 57 || 65 <= b <= 90 || 97 <= b <= 122 || b == 45 || b == 95 || b == 46
}

/// Whether a text may name a service. The name selects a file, so that it may
/// hold nothing that leads elsewhere.
pub open spec fn service_name(b: Seq<u8>) -> bool {
    &&& 0 < b.len() <= MAX_PAM_SERVICE_BYTES
    &&& b[0] != 46
    &&& forall|i: int| 0 <= i < b.len() ==> service_byte(#[trigger] b[i])
}

/// A PAM service.
#[derive(Debug, Clone, PartialEq, Eq)]
pub struct PamVerifier {
    service: String,
}

impl PamVerifier {
    /// The service's name.
    pub closed spec fn name(&self) -> Seq<char> {
        self.service@
    }

    /// The service of a given name.
    pub fn new(service: &str) -> (r: Result<PamVerifier, PamError>)
        ensures
            r is Ok <==> service_name(service.spec_bytes()),
            r matches Ok(v) ==> v.name() == service@,
            r matches Err(e) ==> e == PamError::InvalidServiceName,
    {
        let raw: &[u8] = service.as_bytes();
        if raw.len() == 0 || raw.len() > MAX_PAM_SERVICE_BYTES || raw[0] == 46 {
            return Err(PamError::InvalidServiceName);
        }
        let mut i: usize = 0;
        while i < raw.len()
            invariant
                i <= raw.len(),
                raw@ == service.spec_bytes(),
                forall|k: int| 0 <= k < i ==> service_byte(#[trigger] raw@[k]),
            decreases raw.len() - i,
        {
            let b: u8 = raw[i];
            let fits: bool = (48 <= b && b <= 57) || (65 <= b && b <= 90) || (97 <= b && b <= 122)
                || b == 45 || b == 95 || b == 46;
            if !fits {
                assert(!service_byte(raw@[i as int]));
                return Err(PamError::InvalidServiceName);
            }
            i = i + 1;
        }
        Ok(PamVerifier { service: service.to_owned() })
    }

    /// The service's name.
    pub fn service(&self) -> (r: &str)
        ensures
            r@ == self.name(),
    {
        self.service.as_str()
    }
}

/// No name of a service leads out of the directory that holds them.
pub proof fn service_names_stay_inside(b: Seq<u8>)
    requires
        service_name(b),
    ensures
        !b.contains(47),
        !b.contains(0),
        b[0] != 46,
{
    assert forall|i: int| 0 <= i < b.len() implies b[i] != 47 && b[i] != 0 by {
        assert(service_byte(b[i]));
    }
}

/// Whether a text can be handed to PAM: it holds no zero byte.
pub open spec fn c_text(b: Seq<u8>) -> bool {
    forall|i: int| 0 <= i < b.len() ==> #[trigger] b[i] != 0
}

fn is_c_text(s: &str) -> (r: bool)
    ensures
        r == c_text(s.spec_bytes()),
{
    let raw: &[u8] = s.as_bytes();
    let mut i: usize = 0;
    while i < raw.len()
        invariant
            i <= raw.len(),
            raw@ == s.spec_bytes(),
            forall|k: int| 0 <= k < i ==> #[trigger] raw@[k] != 0,
        decreases raw.len() - i,
    {
        if raw[i] == 0 {
            assert(raw@[i as int] == 0);
            return false;
        }
        i = i + 1;
    }
    true
}

/// The replies of PAM to the calls of one login, as far as they were made.
#[derive(Debug, Clone, Copy, PartialEq, Eq, Structural)]
pub enum PamStep {
    /// Open the transaction.
    Start,
    /// Check the password.
    Authenticate,
    /// Check the account.
    Account,
    /// Refuse.
    Deny,
    /// Accept.
    Accept,
}

/// The first call for a login: none, and a refusal, where one of the texts
/// holds a zero byte.
pub fn first_step(user: &str, password: &str) -> (r: PamStep)
    ensures
        r == (if c_text(user.spec_bytes()) && c_text(password.spec_bytes()) {
            PamStep::Start
        } else {
            PamStep::Deny
        }),
{
    if is_c_text(user) && is_c_text(password) {
        PamStep::Start
    } else {
        PamStep::Deny
    }
}

/// What follows a call, given PAM's reply: the password is checked first, the
/// account only after it, and anything but success refuses.
pub open spec fn step_after(step: PamStep, status: i32) -> PamStep {
    match step {
        PamStep::Start => if status == PAM_SUCCESS {
            PamStep::Authenticate
        } else {
            PamStep::Deny
        },
        PamStep::Authenticate => if status == PAM_SUCCESS {
            PamStep::Account
        } else {
            PamStep::Deny
        },
        PamStep::Account => if status == PAM_SUCCESS {
            PamStep::Accept
        } else {
            PamStep::Deny
        },
        PamStep::Deny => PamStep::Deny,
        PamStep::Accept => PamStep::Accept,
    }
}

/// What follows a call, given PAM's reply.
pub fn next_step(step: PamStep, status: i32) -> (r: PamStep)
    ensures
        r == step_after(step, status),
{
    match step {
        PamStep::Start => if status == PAM_SUCCESS {
            PamStep::Authenticate
        } else {
            PamStep::Deny
        },
        PamStep::Authenticate => if status == PAM_SUCCESS {
            PamStep::Account
        } else {
            PamStep::Deny
        },
        PamStep::Account => if status == PAM_SUCCESS {
            PamStep::Accept
        } else {
            PamStep::Deny
        },
        PamStep::Deny => PamStep::Deny,
        PamStep::Accept => PamStep::Accept,
    }
}

/// A login is accepted only where every call succeeded.
pub proof fn acceptance_needs_every_success(start: i32, authenticate: i32, account: i32)
    ensures
        step_after(step_after(step_after(PamStep::Start, start), authenticate), account)
            == PamStep::Accept <==> start == PAM_SUCCESS && authenticate == PAM_SUCCESS && account
            == PAM_SUCCESS,
{
}

/// Whether a prompt is one that can be met.
pub open spec fn known_style(style: i32) -> bool {
    style == PAM_PROMPT_ECHO_OFF || style == PAM_ERROR_MSG || style == PAM_TEXT_INFO
}

/// Whether a conversation is one that can be met.
pub open spec fn answerable(styles: Seq<i32>) -> bool {
    &&& 0 < styles.len() <= MAX_CONV_MESSAGES
    &&& forall|i: int| 0 <= i < styles.len() ==> known_style(#[trigger] styles[i])
}

/// Which prompts of a conversation are answered with the password: those that
/// are not echoed. Texts need no answer, and any other prompt ends the
/// conversation.
pub fn conversation(styles: &[i32]) -> (r: Result<Vec<bool>, i32>)
    ensures
        r is Ok <==> answerable(styles@),
        r matches Ok(answers) ==> answers@ == Seq::new(
            styles@.len(),
            |i: int| styles@[i] == PAM_PROMPT_ECHO_OFF,
        ),
        r matches Err(status) ==> status == PAM_CONV_ERR,
{
    if styles.len() == 0 || styles.len() > MAX_CONV_MESSAGES {
        return Err(PAM_CONV_ERR);
    }
    let mut answers: Vec<bool> = Vec::new();
    let mut i: usize = 0;
    while i < styles.len()
        invariant
            i <= styles.len(),
            answers@.len() == i,
            forall|k: int| 0 <= k < i ==> known_style(#[trigger] styles@[k]),
            forall|k: int|
                0 <= k < i ==> #[trigger] answers@[k] == (styles@[k] == PAM_PROMPT_ECHO_OFF),
        decreases styles.len() - i,
    {
        let style: i32 = styles[i];
        if style == PAM_PROMPT_ECHO_OFF {
            answers.push(true);
        } else if style == PAM_ERROR_MSG || style == PAM_TEXT_INFO {
            answers.push(false);
        } else {
            assert(!known_style(styles@[i as int]));
            return Err(PAM_CONV_ERR);
        }
        i = i + 1;
    }
    assert(answers@ =~= Seq::new(styles@.len(), |i: int| styles@[i] == PAM_PROMPT_ECHO_OFF));
    Ok(answers)
}

} // verus!
