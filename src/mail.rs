use vstd::prelude::*;

verus! {

/// Whether validator's email check accepts the address `s`.
pub uninterp spec fn email_address_valid(s: Seq<char>) -> bool;

/// Relies on `validator::ValidateEmail::validate_email` for `&str`: the
/// verdict depends on the text alone, and text without an `@` (the empty
/// text among it) is refused.
#[verifier::external_body]
fn validator_accepts_email(address: &str) -> (r: bool)
    ensures
        r == email_address_valid(address@),
        !address@.contains('@') ==> !r,
{
    validator::ValidateEmail::validate_email(&address)
}

/// Whether `address` is an e-mail address that mail may be sent to.
pub fn is_valid_email(address: &str) -> (r: bool)
    ensures
        r == email_address_valid(address@),
        !address@.contains('@') ==> !r,
{
    validator_accepts_email(address)
}

/// The settings for sending mail through an SMTP relay.
pub struct MailService {
    from_address: String,
    smtp_url: String,
    smtp_port: u16,
    user: String,
    password: String,
}

impl MailService {
    pub closed spec fn spec_from_address(&self) -> Seq<char> {
        self.from_address@
    }

    pub closed spec fn spec_smtp_url(&self) -> Seq<char> {
        self.smtp_url@
    }

    pub closed spec fn spec_smtp_port(&self) -> u16 {
        self.smtp_port
    }

    pub closed spec fn spec_user(&self) -> Seq<char> {
        self.user@
    }

    pub closed spec fn spec_password(&self) -> Seq<char> {
        self.password@
    }

    pub fn new(
        from_address: String,
        smtp_url: String,
        smtp_port: u16,
        user: String,
        password: String,
    ) -> (r: MailService)
        ensures
            r.spec_from_address() == from_address@,
            r.spec_smtp_url() == smtp_url@,
            r.spec_smtp_port() == smtp_port,
            r.spec_user() == user@,
            r.spec_password() == password@,
    {
        MailService { from_address, smtp_url, smtp_port, user, password }
    }

    pub fn from_address(&self) -> (r: &str)
        ensures
            r@ == self.spec_from_address(),
    {
        self.from_address.as_str()
    }

    pub fn smtp_url(&self) -> (r: &str)
        ensures
            r@ == self.spec_smtp_url(),
    {
        self.smtp_url.as_str()
    }

    pub fn smtp_port(&self) -> (r: u16)
        ensures
            r == self.spec_smtp_port(),
    {
        self.smtp_port
    }

    pub fn user(&self) -> (r: &str)
        ensures
            r@ == self.spec_user(),
    {
        self.user.as_str()
    }

    pub fn password(&self) -> (r: &str)
        ensures
            r@ == self.spec_password(),
    {
        self.password.as_str()
    }
}

} // verus!
