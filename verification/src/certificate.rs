//! Client certificates: validity, revocation, and the match against the stored certificates.

use vstd::prelude::*;

use crate::identity::User;
use crate::pem::{
    base64_len, der_to_pem, lemma_normalized_crlf, lemma_same_normal_form,
    normalize_certificate_pem, normalized, pem_of, with_crlf,
};

verus! {

/// A point in time, in nanoseconds since the Unix epoch.
#[derive(Clone, Copy, Debug, PartialEq, Eq, Structural)]
pub struct Timestamp {
    pub nanos: i128,
}

/// Whether `now` lies in the validity window, its bounds included.
pub open spec fn in_validity_window(
    not_before: Timestamp,
    not_after: Timestamp,
    now: Timestamp,
) -> bool {
    not_before.nanos <= now.nanos <= not_after.nanos
}

/// True if `now` falls within the certificate's `[not_before, not_after]`
/// validity window (bounds inclusive).
pub fn cert_is_currently_valid(not_before: Timestamp, not_after: Timestamp, now: Timestamp) -> (r:
    bool)
    ensures
        r == in_validity_window(not_before, not_after, now),
{
    now.nanos >= not_before.nanos && now.nanos <= not_after.nanos
}

/// What the check reads of a parsed certificate.
#[derive(Debug)]
pub struct ParsedCertificate {
    pub not_before: Timestamp,
    pub not_after: Timestamp,
    pub serial_base64: String,
}

/// A certificate credential as it is stored.
#[derive(Debug)]
pub struct StoredCertificate {
    pub certificate_pem: String,
    /// Whether the credential belongs to a user.
    pub has_owner: bool,
}

/// How far the check of a client certificate has come.
#[derive(Debug)]
pub enum CertificateCheck<E> {
    Parsing { pem: String },
    ReadingClock { pem: String, certificate: ParsedCertificate },
    CheckingRevocation { pem: String, serial_base64: String },
    LoadingCredentials { pem: String },
    RecordingUse { index: usize },
    LoadingOwner { index: usize },
    Done(Result<Option<User>, E>),
}

/// What the check asks of the gateway.
#[derive(Debug)]
pub enum CertificateAction<'a> {
    /// Parse the PEM certificate.
    Parse(&'a String),
    /// Tell the time.
    ReadClock,
    /// Tell whether a certificate with this serial number is revoked.
    CheckRevocation(&'a String),
    /// List the stored certificate credentials.
    LoadCredentials,
    /// Set the time of last use of the credential at this place of the list.
    RecordUse(usize),
    /// Load the user that the credential at this place of the list belongs to.
    LoadOwner(usize),
    /// Nothing: the check is over.
    Finished,
}

/// The gateway's answer.
#[derive(Debug)]
pub enum CertificateEvent<E> {
    Parsed(Result<ParsedCertificate, E>),
    Clock(Timestamp),
    Revoked(Result<bool, E>),
    Credentials(Result<Vec<StoredCertificate>, E>),
    UseRecorded(Result<(), E>),
    Owner(Result<User, E>),
}

/// Whether a stored credential is that of the certificate.
pub open spec fn is_match(stored: StoredCertificate, pem: Seq<char>) -> bool {
    stored.has_owner && normalized(stored.certificate_pem@) == normalized(pem)
}

/// The first stored credential that matches, from a place in the list on.
pub open spec fn first_match(stored: Seq<StoredCertificate>, pem: Seq<char>, from: int) -> Option<int>
    decreases stored.len() - from,
{
    if from < 0 || from >= stored.len() {
        None
    } else if is_match(stored[from], pem) {
        Some(from)
    } else {
        first_match(stored, pem, from + 1)
    }
}

/// The place of the first stored credential that belongs to a user and holds the certificate.
fn find_match(stored: &Vec<StoredCertificate>, pem: &String) -> (r: Option<usize>)
    ensures
        match r {
            Some(i) => first_match(stored@, pem@, 0) == Some(i as int),
            None => first_match(stored@, pem@, 0) is None,
        },
{
    let provided: String = normalize_certificate_pem(pem.as_str());
    let mut i: usize = 0;
    while i < stored.len()
        invariant
            i <= stored@.len(),
            provided@ == normalized(pem@),
            first_match(stored@, pem@, 0) == first_match(stored@, pem@, i as int),
        decreases stored@.len() - i,
    {
        if stored[i].has_owner {
            let candidate: String = normalize_certificate_pem(stored[i].certificate_pem.as_str());
            if candidate == provided {
                return Some(i);
            }
        }
        i = i + 1;
    }
    None
}

/// Starts the check of a client certificate, given in DER form.
pub fn validate_client_certificate<E>(cert_der: &[u8]) -> (check: CertificateCheck<E>)
    requires
        base64_len(cert_der@.len() as int) <= isize::MAX,
    ensures
        check matches CertificateCheck::Parsing { pem } && pem@ == pem_of(cert_der@),
{
    CertificateCheck::Parsing { pem: der_to_pem(cert_der) }
}

impl<E> CertificateCheck<E> {
    /// What the check waits for.
    pub open spec fn spec_pending(&self) -> CertificateAction<'_> {
        match self {
            CertificateCheck::Parsing { pem } => CertificateAction::Parse(pem),
            CertificateCheck::ReadingClock { .. } => CertificateAction::ReadClock,
            CertificateCheck::CheckingRevocation { serial_base64, .. } =>
                CertificateAction::CheckRevocation(serial_base64),
            CertificateCheck::LoadingCredentials { .. } => CertificateAction::LoadCredentials,
            CertificateCheck::RecordingUse { index } => CertificateAction::RecordUse(*index),
            CertificateCheck::LoadingOwner { index } => CertificateAction::LoadOwner(*index),
            CertificateCheck::Done(_) => CertificateAction::Finished,
        }
    }

    pub fn pending(&self) -> (action: CertificateAction<'_>)
        ensures
            action == self.spec_pending(),
    {
        match self {
            CertificateCheck::Parsing { pem } => CertificateAction::Parse(pem),
            CertificateCheck::ReadingClock { .. } => CertificateAction::ReadClock,
            CertificateCheck::CheckingRevocation { serial_base64, .. } =>
                CertificateAction::CheckRevocation(serial_base64),
            CertificateCheck::LoadingCredentials { .. } => CertificateAction::LoadCredentials,
            CertificateCheck::RecordingUse { index } => CertificateAction::RecordUse(*index),
            CertificateCheck::LoadingOwner { index } => CertificateAction::LoadOwner(*index),
            CertificateCheck::Done(_) => CertificateAction::Finished,
        }
    }

    /// The check after an answer. An answer to a question that was not asked rejects the
    /// certificate.
    pub open spec fn after(self, event: CertificateEvent<E>) -> Self {
        match (self, event) {
            (CertificateCheck::Done(result), _) => CertificateCheck::Done(result),
            (CertificateCheck::Parsing { pem }, CertificateEvent::Parsed(reply)) => match reply {
                Ok(certificate) => CertificateCheck::ReadingClock { pem, certificate },
                Err(e) => CertificateCheck::Done(Err(e)),
            },
            (
                CertificateCheck::ReadingClock { pem, certificate },
                CertificateEvent::Clock(now),
            ) => if in_validity_window(certificate.not_before, certificate.not_after, now) {
                CertificateCheck::CheckingRevocation { pem, serial_base64: certificate.serial_base64 }
            } else {
                CertificateCheck::Done(Ok(None))
            },
            (
                CertificateCheck::CheckingRevocation { pem, .. },
                CertificateEvent::Revoked(reply),
            ) => match reply {
                Ok(true) => CertificateCheck::Done(Ok(None)),
                Ok(false) => CertificateCheck::LoadingCredentials { pem },
                Err(e) => CertificateCheck::Done(Err(e)),
            },
            (
                CertificateCheck::LoadingCredentials { pem },
                CertificateEvent::Credentials(reply),
            ) => match reply {
                Ok(stored) => match first_match(stored@, pem@, 0) {
                    Some(i) => CertificateCheck::RecordingUse { index: i as usize },
                    None => CertificateCheck::Done(Ok(None)),
                },
                Err(e) => CertificateCheck::Done(Err(e)),
            },
            (CertificateCheck::RecordingUse { index }, CertificateEvent::UseRecorded(_)) =>
                CertificateCheck::LoadingOwner { index },
            (CertificateCheck::LoadingOwner { .. }, CertificateEvent::Owner(reply)) => match reply {
                Ok(user) => CertificateCheck::Done(Ok(Some(user))),
                Err(e) => CertificateCheck::Done(Err(e)),
            },
            _ => CertificateCheck::Done(Ok(None)),
        }
    }

    /// Takes an answer of the gateway.
    pub fn resume(self, event: CertificateEvent<E>) -> (next: Self)
        ensures
            next == self.after(event),
    {
        match (self, event) {
            (CertificateCheck::Done(result), _) => CertificateCheck::Done(result),
            (CertificateCheck::Parsing { pem }, CertificateEvent::Parsed(reply)) => match reply {
                Ok(certificate) => CertificateCheck::ReadingClock { pem, certificate },
                Err(e) => CertificateCheck::Done(Err(e)),
            },
            (
                CertificateCheck::ReadingClock { pem, certificate },
                CertificateEvent::Clock(now),
            ) => if cert_is_currently_valid(certificate.not_before, certificate.not_after, now) {
                CertificateCheck::CheckingRevocation { pem, serial_base64: certificate.serial_base64 }
            } else {
                CertificateCheck::Done(Ok(None))
            },
            (
                CertificateCheck::CheckingRevocation { pem, .. },
                CertificateEvent::Revoked(reply),
            ) => match reply {
                Ok(revoked) => if revoked {
                    CertificateCheck::Done(Ok(None))
                } else {
                    CertificateCheck::LoadingCredentials { pem }
                },
                Err(e) => CertificateCheck::Done(Err(e)),
            },
            (
                CertificateCheck::LoadingCredentials { pem },
                CertificateEvent::Credentials(reply),
            ) => match reply {
                Ok(stored) => match find_match(&stored, &pem) {
                    Some(index) => CertificateCheck::RecordingUse { index },
                    None => CertificateCheck::Done(Ok(None)),
                },
                Err(e) => CertificateCheck::Done(Err(e)),
            },
            (CertificateCheck::RecordingUse { index }, CertificateEvent::UseRecorded(_)) =>
                CertificateCheck::LoadingOwner { index },
            (CertificateCheck::LoadingOwner { .. }, CertificateEvent::Owner(reply)) => match reply {
                Ok(user) => CertificateCheck::Done(Ok(Some(user))),
                Err(e) => CertificateCheck::Done(Err(e)),
            },
            _ => CertificateCheck::Done(Ok(None)),
        }
    }
}

/// All that the gateway can be asked about one certificate.
pub struct CertificateFacts<E> {
    pub parsed: Result<ParsedCertificate, E>,
    pub now: Timestamp,
    pub revoked: Result<bool, E>,
    pub stored: Result<Vec<StoredCertificate>, E>,
    pub use_recorded: Result<(), E>,
    pub owner: Result<User, E>,
}

impl<E> CertificateFacts<E> {
    /// The answer to what a check waits for.
    pub open spec fn answer(self, check: CertificateCheck<E>) -> CertificateEvent<E> {
        match check {
            CertificateCheck::Parsing { .. } => CertificateEvent::Parsed(self.parsed),
            CertificateCheck::ReadingClock { .. } => CertificateEvent::Clock(self.now),
            CertificateCheck::CheckingRevocation { .. } => CertificateEvent::Revoked(self.revoked),
            CertificateCheck::LoadingCredentials { .. } => CertificateEvent::Credentials(self.stored),
            CertificateCheck::RecordingUse { .. } => CertificateEvent::UseRecorded(
                self.use_recorded,
            ),
            _ => CertificateEvent::Owner(self.owner),
        }
    }

    /// The check after a number of answers.
    pub open spec fn run(self, check: CertificateCheck<E>, answers: nat) -> CertificateCheck<E>
        decreases answers,
    {
        if answers == 0 {
            check
        } else {
            self.run(check.after(self.answer(check)), (answers - 1) as nat)
        }
    }

    /// The certificate is within its validity period and not revoked, and a user has it on file.
    pub open spec fn acceptable(self, pem: Seq<char>) -> bool {
        &&& self.parsed matches Ok(certificate) && in_validity_window(
            certificate.not_before,
            certificate.not_after,
            self.now,
        )
        &&& self.revoked == Ok::<bool, E>(false)
        &&& self.stored matches Ok(stored) && exists|i: int|
            0 <= i < stored@.len() && is_match(#[trigger] stored@[i], pem)
    }

    /// The user whose certificate it is, where it is acceptable; a fault is reported only where the
    /// question was reached.
    pub open spec fn verdict(self, pem: Seq<char>) -> Result<Option<User>, E> {
        match (self.parsed, self.revoked, self.stored) {
            (Err(e), _, _) => Err(e),
            (Ok(certificate), _, _) if !in_validity_window(
                certificate.not_before,
                certificate.not_after,
                self.now,
            ) => Ok(None),
            (_, Err(e), _) => Err(e),
            (_, Ok(true), _) => Ok(None),
            (_, _, Err(e)) => Err(e),
            _ => if self.acceptable(pem) {
                match self.owner {
                    Ok(user) => Ok(Some(user)),
                    Err(e) => Err(e),
                }
            } else {
                Ok(None)
            },
        }
    }
}

/// [`first_match`] finds the first matching credential, and finds one if there is one.
pub proof fn lemma_first_match(stored: Seq<StoredCertificate>, pem: Seq<char>, from: int)
    requires
        0 <= from,
    ensures
        match first_match(stored, pem, from) {
            Some(i) => {
                &&& from <= i < stored.len()
                &&& is_match(stored[i], pem)
                &&& forall|j: int| from <= j < i ==> !is_match(#[trigger] stored[j], pem)
            },
            None => forall|j: int|
                from <= j < stored.len() ==> !is_match(#[trigger] stored[j], pem),
        },
    decreases stored.len() - from,
{
    if from < stored.len() && !is_match(stored[from], pem) {
        lemma_first_match(stored, pem, from + 1);
    }
}

/// The check of a certificate comes to its verdict within six answers.
pub proof fn lemma_certificate_verdict<E>(facts: CertificateFacts<E>, pem: String)
    ensures
        facts.run(CertificateCheck::Parsing { pem }, 6) == CertificateCheck::Done(
            facts.verdict(pem@),
        ),
{
    reveal_with_fuel(CertificateFacts::run, 7);
    if let Ok(stored) = facts.stored {
        lemma_first_match(stored@, pem@, 0);
    }
}

/// An acceptable certificate is that of the owner of the first credential on file that matches it:
/// once the use of that very credential is recorded, its owner is what the check asks for.
pub proof fn lemma_owner_of_first_match<E>(facts: CertificateFacts<E>, pem: String)
    requires
        facts.acceptable(pem@),
    ensures
        facts.run(CertificateCheck::Parsing { pem }, 4) matches CertificateCheck::RecordingUse {
            index,
        } && first_match(facts.stored->Ok_0@, pem@, 0) == Some(index as int),
        facts.run(CertificateCheck::Parsing { pem }, 5) matches CertificateCheck::LoadingOwner {
            index,
        } && first_match(facts.stored->Ok_0@, pem@, 0) == Some(index as int),
{
    reveal_with_fuel(CertificateFacts::run, 7);
    let stored = facts.stored->Ok_0;
    lemma_first_match(stored@, pem@, 0);
    assert(stored.len() == stored@.len());
}

/// Only a certificate that is within its validity period, not revoked and on file for a user
/// authenticates anyone.
pub proof fn lemma_only_acceptable_certificates<E>(facts: CertificateFacts<E>, pem: Seq<char>)
    requires
        facts.verdict(pem) matches Ok(Some(_)),
    ensures
        facts.acceptable(pem),
        facts.verdict(pem)->Ok_0 == Some(facts.owner->Ok_0),
{
}

/// A stored PEM encoding of a certificate matches the presented certificate exactly when the two
/// are the same certificate, whatever kind of line ends the stored text has.
pub proof fn lemma_match_is_same_certificate(
    stored: StoredCertificate,
    stored_der: Seq<u8>,
    der: Seq<u8>,
)
    requires
        stored.has_owner,
        stored.certificate_pem@ == pem_of(stored_der) || stored.certificate_pem@
            == with_crlf(pem_of(stored_der)),
    ensures
        is_match(stored, pem_of(der)) <==> stored_der == der,
{
    lemma_same_normal_form(stored_der, der);
    lemma_normalized_crlf(pem_of(stored_der));
}

/// A gateway, as far as the check of a certificate goes: what it answers to each question that it
/// can be asked.
pub struct CertificateGateway<E> {
    /// What a PEM text parses as.
    pub parsed: spec_fn(Seq<char>) -> Result<ParsedCertificate, E>,
    pub now: Timestamp,
    /// Whether a serial number is revoked.
    pub revoked: spec_fn(Seq<char>) -> Result<bool, E>,
    pub stored: Result<Vec<StoredCertificate>, E>,
    /// How it goes to record the use of the credential at a place of the list.
    pub use_recorded: spec_fn(int) -> Result<(), E>,
    /// The owner of the credential at a place of the list.
    pub owner: spec_fn(int) -> Result<User, E>,
}

impl<E> CertificateGateway<E> {
    /// The answer to a question.
    pub open spec fn answer(self, action: CertificateAction<'_>) -> CertificateEvent<E> {
        match action {
            CertificateAction::Parse(pem) => CertificateEvent::Parsed((self.parsed)(pem@)),
            CertificateAction::ReadClock => CertificateEvent::Clock(self.now),
            CertificateAction::CheckRevocation(serial) => CertificateEvent::Revoked(
                (self.revoked)(serial@),
            ),
            CertificateAction::LoadCredentials => CertificateEvent::Credentials(self.stored),
            CertificateAction::RecordUse(index) => CertificateEvent::UseRecorded(
                (self.use_recorded)(index as int),
            ),
            CertificateAction::LoadOwner(index) => CertificateEvent::Owner(
                (self.owner)(index as int),
            ),
            CertificateAction::Finished => CertificateEvent::Clock(self.now),
        }
    }

    /// The check after the gateway answered a number of its questions.
    pub open spec fn serve(self, check: CertificateCheck<E>, questions: nat) -> CertificateCheck<E>
        decreases questions,
    {
        if questions == 0 {
            check
        } else {
            self.serve(check.after(self.answer(check.spec_pending())), (questions - 1) as nat)
        }
    }

    /// The certificate is within its validity period, bounds included, and its serial number is not
    /// revoked.
    pub open spec fn in_force(self, pem: Seq<char>) -> bool {
        &&& (self.parsed)(pem) matches Ok(certificate)
        &&& certificate.not_before.nanos <= self.now.nanos
        &&& self.now.nanos <= certificate.not_after.nanos
        &&& (self.revoked)(certificate.serial_base64@) == Ok::<bool, E>(false)
    }

    /// The credential at a place of the list is of the certificate, and belongs to someone.
    pub open spec fn on_file_at(self, pem: Seq<char>, i: int) -> bool {
        &&& self.stored is Ok
        &&& 0 <= i < self.stored->Ok_0@.len()
        &&& self.stored->Ok_0@[i].has_owner
        &&& normalized(self.stored->Ok_0@[i].certificate_pem@) == normalized(pem)
    }
}

/// A certificate in force authenticates the owner of the first credential on file that is of it and
/// belongs to someone. The gateway is asked to record the use of that credential, and for the owner
/// of that credential; whether the use could be recorded makes no difference.
pub proof fn lemma_certificate_of_owner<E>(gateway: CertificateGateway<E>, pem: String, i: int)
    requires
        gateway.in_force(pem@),
        gateway.on_file_at(pem@, i),
        forall|j: int| 0 <= j < i ==> !#[trigger] gateway.on_file_at(pem@, j),
    ensures
        gateway.serve(CertificateCheck::Parsing { pem }, 4).spec_pending()
            matches CertificateAction::RecordUse(index) && index == i,
        gateway.serve(CertificateCheck::Parsing { pem }, 5).spec_pending()
            matches CertificateAction::LoadOwner(index) && index == i,
        (gateway.owner)(i) matches Ok(user) ==> gateway.serve(CertificateCheck::Parsing { pem }, 6)
            == CertificateCheck::<E>::Done(Ok(Some(user))),
        (gateway.owner)(i) matches Err(e) ==> gateway.serve(CertificateCheck::Parsing { pem }, 6)
            == CertificateCheck::<E>::Done(Err(e)),
{
    reveal_with_fuel(CertificateGateway::serve, 7);
    let stored = gateway.stored->Ok_0;
    assert(stored.len() == stored@.len());
    lemma_first_match(stored@, pem@, 0);
    assert(is_match(stored@[i], pem@));
    assert(first_match(stored@, pem@, 0) == Some(i)) by {
        let k = first_match(stored@, pem@, 0)->0;
        if k < i {
            assert(gateway.on_file_at(pem@, k));
        }
        if i < k {
            assert(is_match(stored@[i], pem@));
        }
    }
}

/// Nobody is authenticated by a certificate outside its validity period, by a revoked one, or by one
/// that is not on file for anyone; a fault ends the check with that fault, and is looked at only
/// where the check has come to the question. Of a certificate outside its validity period nothing
/// else is asked, of a revoked one nothing that is on file.
pub proof fn lemma_certificate_turned_down<E>(gateway: CertificateGateway<E>, pem: String)
    ensures
        (gateway.parsed)(pem@) matches Err(e) ==> gateway.serve(CertificateCheck::Parsing { pem }, 1)
            == CertificateCheck::<E>::Done(Err(e)),
        (gateway.parsed)(pem@) matches Ok(certificate) ==> {
            &&& gateway.now.nanos < certificate.not_before.nanos || certificate.not_after.nanos
                < gateway.now.nanos ==> gateway.serve(CertificateCheck::Parsing { pem }, 2)
                == CertificateCheck::<E>::Done(Ok(None))
            &&& certificate.not_before.nanos <= gateway.now.nanos && gateway.now.nanos
                <= certificate.not_after.nanos ==> match (gateway.revoked)(
                certificate.serial_base64@,
            ) {
                Err(e) => gateway.serve(CertificateCheck::Parsing { pem }, 3)
                    == CertificateCheck::<E>::Done(Err(e)),
                Ok(true) => gateway.serve(CertificateCheck::Parsing { pem }, 3)
                    == CertificateCheck::<E>::Done(Ok(None)),
                Ok(false) => {
                    &&& gateway.serve(CertificateCheck::Parsing { pem }, 3).spec_pending()
                        is LoadCredentials
                    &&& gateway.stored matches Err(e) ==> gateway.serve(
                        CertificateCheck::Parsing { pem },
                        4,
                    ) == CertificateCheck::<E>::Done(Err(e))
                    &&& gateway.stored is Ok && (forall|i: int|
                        !#[trigger] gateway.on_file_at(pem@, i)) ==> gateway.serve(
                        CertificateCheck::Parsing { pem },
                        4,
                    ) == CertificateCheck::<E>::Done(Ok(None))
                },
            }
        },
{
    reveal_with_fuel(CertificateGateway::serve, 7);
    if gateway.stored is Ok && (forall|i: int| !#[trigger] gateway.on_file_at(pem@, i)) {
        let stored = gateway.stored->Ok_0;
        lemma_first_match(stored@, pem@, 0);
        if let Some(i) = first_match(stored@, pem@, 0) {
            assert(gateway.on_file_at(pem@, i));
        }
    }
}

/// A check that is over asks for nothing and keeps its result; one that is not over and gets an
/// answer to another question than its own authenticates nobody.
pub proof fn lemma_certificate_fails_closed<E>(check: CertificateCheck<E>, event: CertificateEvent<E>)
    ensures
        check is Done ==> check.after(event) == check && check.spec_pending() is Finished,
        check !is Done ==> check.spec_pending() !is Finished,
        check !is Done && !(match check.spec_pending() {
            CertificateAction::Parse(_) => event is Parsed,
            CertificateAction::ReadClock => event is Clock,
            CertificateAction::CheckRevocation(_) => event is Revoked,
            CertificateAction::LoadCredentials => event is Credentials,
            CertificateAction::RecordUse(_) => event is UseRecorded,
            CertificateAction::LoadOwner(_) => event is Owner,
            CertificateAction::Finished => false,
        }) ==> check.after(event) == CertificateCheck::<E>::Done(Ok(None)),
{
}

} // verus!
