//! The profile that the Azure command line tool keeps of its subscriptions.

use vstd::prelude::*;

verus! {

/// Where the Azure command line tool keeps its profile, below the home
/// directory of the user.
pub const PROFILE_LOCATION: &'static str = ".azure/azureProfile.json";

/// The identity that a subscription was signed in with.
#[derive(Debug, PartialEq, Eq)]
pub enum AzureCredential {
    User { name: String },
}

/// One subscription of the profile.
#[derive(Debug, PartialEq, Eq)]
pub struct AzureSubscription {
    pub id: String,
    pub name: String,
    pub state: String,
    pub user: AzureCredential,
    pub is_default: bool,
    pub tenant_id: String,
    pub environment_name: String,
}

/// The profile of one installation of the Azure command line tool.
#[derive(Debug, PartialEq, Eq)]
pub struct AzureProfile {
    pub installation_id: String,
    pub subscriptions: Vec<AzureSubscription>,
}

impl Clone for AzureCredential {
    fn clone(&self) -> (copy: Self)
        ensures
            copy == *self,
    {
        match self {
            AzureCredential::User { name } => AzureCredential::User { name: name.clone() },
        }
    }
}

impl Clone for AzureSubscription {
    fn clone(&self) -> (copy: Self)
        ensures
            copy == *self,
    {
        AzureSubscription {
            id: self.id.clone(),
            name: self.name.clone(),
            state: self.state.clone(),
            user: self.user.clone(),
            is_default: self.is_default,
            tenant_id: self.tenant_id.clone(),
            environment_name: self.environment_name.clone(),
        }
    }
}

impl Clone for AzureProfile {
    fn clone(&self) -> (copy: Self)
        ensures
            copy.installation_id == self.installation_id,
            copy.subscriptions@ == self.subscriptions@,
    {
        let mut subscriptions: Vec<AzureSubscription> = Vec::new();
        let mut i: usize = 0;
        while i < self.subscriptions.len()
            invariant
                i <= self.subscriptions.len(),
                subscriptions@ == self.subscriptions@.take(i as int),
            decreases self.subscriptions.len() - i,
        {
            subscriptions.push(self.subscriptions[i].clone());
            i += 1;
        }
        AzureProfile { installation_id: self.installation_id.clone(), subscriptions }
    }
}

/// Whether a byte of a profile file is kept when the file is read: the ASCII
/// letters, digits and punctuation marks. Everything else, white space and the
/// byte order mark that the tool writes included, is dropped.
pub open spec fn is_displayable(byte: u8) -> bool {
    ||| 0x30 <= byte <= 0x39
    ||| 0x41 <= byte <= 0x5a
    ||| 0x61 <= byte <= 0x7a
    ||| 0x21 <= byte <= 0x2f
    ||| 0x3a <= byte <= 0x40
    ||| 0x5b <= byte <= 0x60
    ||| 0x7b <= byte <= 0x7e
}

/// The text that is left of the bytes of a profile file: each displayable
/// byte as the character with its code, in the order of the file.
pub open spec fn displayable_text(bytes: Seq<u8>) -> Seq<char> {
    bytes.filter_map(
        |byte: u8|
            if is_displayable(byte) {
                Some(byte as char)
            } else {
                None
            },
    )
}

/// The first subscription that is marked as the default, if there is one.
pub open spec fn first_default(subscriptions: Seq<AzureSubscription>) -> Option<
    AzureSubscription,
>
    decreases subscriptions.len(),
{
    if subscriptions.len() == 0 {
        None
    } else if subscriptions[0].is_default {
        Some(subscriptions[0])
    } else {
        first_default(subscriptions.drop_first())
    }
}

/// `String::push` of the standard library: the text afterwards is the text
/// before with the character added at its end.
#[verifier::external_body]
fn push_char(text: &mut String, c: char)
    ensures
        final(text)@ == old(text)@.push(c),
{
    text.push(c)
}

/// Tells whether a byte is displayable.
pub fn displayable(byte: u8) -> (kept: bool)
    ensures
        kept == is_displayable(byte),
        kept == (0x21 <= byte <= 0x7e),
{
    0x21 <= byte && byte <= 0x7e
}

impl AzureProfile {
    /// Reduces the bytes of a profile file to the text that is parsed: the
    /// displayable bytes, each as its character.
    pub fn displayable_json(bytes: &[u8]) -> (text: String)
        ensures
            text@ == displayable_text(bytes@),
    {
        let mut text = String::new();
        let mut i: usize = 0;
        while i < bytes.len()
            invariant
                i <= bytes.len(),
                text@ == displayable_text(bytes@.take(i as int)),
            decreases bytes.len() - i,
        {
            let byte = bytes[i];
            proof {
                bytes@.lemma_filter_map_take_succ(
                    |byte: u8|
                        if is_displayable(byte) {
                            Some(byte as char)
                        } else {
                            None
                        },
                    i as int,
                );
            }
            if displayable(byte) {
                push_char(&mut text, byte as char);
            }
            i += 1;
        }
        assert(bytes@.take(bytes.len() as int) == bytes@);
        text
    }

    /// Returns a copy of the first subscription that is marked as the
    /// default, or `None` when no subscription is.
    pub fn default_subscription(&self) -> (found: Option<AzureSubscription>)
        ensures
            found == first_default(self.subscriptions@),
    {
        let mut i: usize = 0;
        assert(self.subscriptions@.skip(0) == self.subscriptions@);
        while i < self.subscriptions.len()
            invariant
                i <= self.subscriptions.len(),
                first_default(self.subscriptions@) == first_default(
                    self.subscriptions@.skip(i as int),
                ),
            decreases self.subscriptions.len() - i,
        {
            let candidate = &self.subscriptions[i];
            if candidate.is_default {
                return Some(candidate.clone());
            }
            assert(self.subscriptions@.skip(i as int).drop_first() == self.subscriptions@.skip(
                i + 1,
            ));
            i += 1;
        }
        None
    }
}

/// A default subscription is found exactly when some subscription is marked,
/// and it is then the earliest one that is.
pub proof fn lemma_first_default(subscriptions: Seq<AzureSubscription>)
    ensures
        first_default(subscriptions) is None <==> forall|i: int|
            0 <= i < subscriptions.len() ==> !(#[trigger] subscriptions[i]).is_default,
        first_default(subscriptions) matches Some(found) ==> exists|i: int|
            0 <= i < subscriptions.len() && found == #[trigger] subscriptions[i]
                && found.is_default && forall|j: int|
                0 <= j < i ==> !(#[trigger] subscriptions[j]).is_default,
    decreases subscriptions.len(),
{
    if subscriptions.len() > 0 && !subscriptions[0].is_default {
        let rest = subscriptions.drop_first();
        lemma_first_default(rest);
        if first_default(rest) is None {
            assert forall|i: int| 0 <= i < subscriptions.len() implies !(
            #[trigger] subscriptions[i]).is_default by {
                if i > 0 {
                    assert(rest[i - 1] == subscriptions[i]);
                }
            }
        } else {
            let found = first_default(rest)->0;
            let k = choose|i: int|
                0 <= i < rest.len() && found == #[trigger] rest[i] && found.is_default
                    && forall|j: int| 0 <= j < i ==> !(#[trigger] rest[j]).is_default;
            assert forall|j: int| 0 <= j < k + 1 implies !(
            #[trigger] subscriptions[j]).is_default by {
                if j > 0 {
                    assert(rest[j - 1] == subscriptions[j]);
                }
            }
        }
    }
}

} // verus!
