//! Typed shapes of the authentication API's requests and responses, over
//! plain values only.

use vstd::prelude::*;
use crate::hex::nibble_char;
use crate::hex::push_char;

verus! {

/// A 128-bit UUID, held as its integer value with the first byte of the
/// canonical form as the most significant byte.
#[derive(Clone, Copy, PartialEq, Eq, Structural, Debug)]
pub struct Uuid {
    /// The 128-bit value of the UUID.
    pub value: u128,
}

/// A profile property returned by server-side authentication; the most
/// common one, `textures`, carries the player's skin. Both `value` and
/// `signature` are base64-encoded strings.
#[derive(Clone, Debug, PartialEq, Eq)]
pub struct ProfileProperty {
    /// The name of this profile property.
    pub name: String,
    /// The base64-encoded value of this profile property.
    pub value: String,
    /// The signature of this profile property, signed with Yggdrasil's
    /// private key.
    pub signature: String,
}

/// The response received when performing server-side authentication: the
/// player's UUID, username, and any profile properties.
#[derive(Clone, Debug, PartialEq, Eq)]
pub struct ServerAuthResponse {
    /// The UUID of the player.
    pub id: Uuid,
    /// The current username of the player.
    pub name: String,
    /// The player's profile properties.
    pub properties: Vec<ProfileProperty>,
}

/// The response received from the client authentication endpoint: an access
/// token and information about the authenticated user.
#[derive(Clone, Debug, PartialEq, Eq)]
pub struct ClientLoginResponse {
    /// The access token which can later be used for client-side
    /// authentication when logging into a server.
    pub access_token: String,
    /// Information about the user which authenticated.
    pub user: User,
}

/// Information about a user: UUID, email, username, and account flags.
#[derive(Clone, Debug, PartialEq, Eq)]
pub struct User {
    /// UUID of the user.
    pub id: Uuid,
    /// User's email.
    pub email: String,
    /// Username.
    pub username: String,
    /// IP address from which the user was registered, last digit censored.
    pub register_ip: String,
    /// Where this user migrated from.
    pub migrated_from: Option<String>,
    /// Time at which this user migrated.
    pub migrated_at: Option<u64>,
    /// Time at which this user was registered.
    pub registered_at: u64,
    /// Last time the user's password was changed.
    pub password_changed_at: Option<u64>,
    /// User's date of birth.
    pub date_of_birth: i64,
    /// Whether this account is suspended.
    pub suspended: bool,
    /// Whether this account is blocked.
    pub blocked: bool,
    /// Whether this account is secured.
    pub secured: bool,
    /// Whether this account is migrated.
    pub migrated: bool,
    /// Whether this user's email has been verified.
    pub email_verified: bool,
    /// Whether this is a legacy user.
    pub legacy_user: bool,
    /// Whether this user was verified by their parent.
    pub verified_by_parent: bool,
}

/// The hexadecimal digits of `n` padded or truncated to exactly `width`
/// digits, most significant first.
pub open spec fn fixed_hex(n: nat, width: nat) -> Seq<char>
    decreases width,
{
    if width == 0 {
        Seq::empty()
    } else {
        fixed_hex(n / 16, (width - 1) as nat) + seq![nibble_char((n % 16) as int)]
    }
}

/// The canonical lowercase hyphenated rendering of a 128-bit UUID value:
/// 32 hexadecimal digits in five groups of 8, 4, 4, 4 and 12.
pub open spec fn uuid_str(n: nat) -> Seq<char> {
    let h = fixed_hex(n, 32);
    h.subrange(0, 8) + seq!['-'] + h.subrange(8, 12) + seq!['-'] + h.subrange(12, 16)
        + seq!['-'] + h.subrange(16, 20) + seq!['-'] + h.subrange(20, 32)
}

/// A fixed width of hexadecimal digits has that length.
proof fn lemma_fixed_hex_len(n: nat, width: nat)
    ensures
        fixed_hex(n, width).len() == width,
    decreases width,
{
    if width > 0 {
        lemma_fixed_hex_len(n / 16, (width - 1) as nat);
    }
}

/// The hexadecimal digits of `n`, exactly `width` of them.
fn fixed_hex_str(n: u128, width: usize) -> (r: String)
    ensures
        r@ == fixed_hex(n as nat, width as nat),
    decreases width,
{
    if width == 0 {
        String::new()
    } else {
        let mut r = fixed_hex_str(n / 16, width - 1);
        push_char(&mut r, crate::hex::nibble_to_char((n % 16) as u8));
        r
    }
}

impl Uuid {
    /// The canonical lowercase hyphenated form of this UUID, as it appears
    /// in the API's JSON.
    pub fn hyphenated(&self) -> (r: String)
        ensures
            r@ == uuid_str(self.value as nat),
    {
        proof {
            lemma_fixed_hex_len(self.value as nat, 32);
        }
        let h = fixed_hex_str(self.value, 32);
        let hs = h.as_str();
        let mut r = String::new();
        r.append(hs.substring_char(0, 8));
        push_char(&mut r, '-');
        r.append(hs.substring_char(8, 12));
        push_char(&mut r, '-');
        r.append(hs.substring_char(12, 16));
        push_char(&mut r, '-');
        r.append(hs.substring_char(16, 20));
        push_char(&mut r, '-');
        r.append(hs.substring_char(20, 32));
        proof {
            assert(r@ =~= uuid_str(self.value as nat));
        }
        r
    }
}

} // verus!
