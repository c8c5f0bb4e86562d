//! Joining the wireless network: the settings that it needs and how often it is tried.

use vstd::prelude::*;
use vstd::string::*;

verus! {

/// The longest network name, in bytes of UTF-8.
pub const MAX_SSID_BYTES: usize = 32;

/// The longest network password, in bytes of UTF-8.
pub const MAX_PASSWORD_BYTES: usize = 64;

/// How many times joining the network is tried.
pub const MAX_ATTEMPTS: u32 = 5;

/// Milliseconds between two attempts.
pub const RETRY_DELAY_MS: u32 = 3000;

/// The settings that are fixed when the firmware is built.
#[derive(Clone, Copy, Debug)]
pub struct Config {
    pub wifi_ssid: &'static str,
    pub wifi_pass: &'static str,
    pub server_url: &'static str,
}

/// What is wrong with the settings for the network.
#[derive(Clone, Copy, Debug, PartialEq, Eq, Structural)]
pub enum ConfigError {
    /// There is no network name.
    MissingSsid,
    /// The network name exceeds 32 bytes.
    SsidTooLong,
    /// The password exceeds 64 bytes.
    PasswordTooLong,
}

impl Default for Config {
    /// The settings where none are given: all empty.
    fn default() -> (c: Config)
        ensures
            c.wifi_ssid@ == ""@,
            c.wifi_pass@ == ""@,
            c.server_url@ == ""@,
    {
        Config { wifi_ssid: "", wifi_pass: "", server_url: "" }
    }
}

impl Config {
    /// The first thing that is wrong with the settings for the network, if any.
    pub open spec fn problem(self) -> Option<ConfigError> {
        if self.wifi_ssid@.len() == 0 {
            Some(ConfigError::MissingSsid)
        } else if self.wifi_ssid.spec_bytes().len() > MAX_SSID_BYTES {
            Some(ConfigError::SsidTooLong)
        } else if self.wifi_pass.spec_bytes().len() > MAX_PASSWORD_BYTES {
            Some(ConfigError::PasswordTooLong)
        } else {
            None
        }
    }

    /// Checks that the network can be joined with these settings.
    pub fn check_wifi(&self) -> (r: Result<(), ConfigError>)
        ensures
            r == (match self.problem() {
                Some(e) => Err::<(), ConfigError>(e),
                None => Ok::<(), ConfigError>(()),
            }),
    {
        if self.wifi_ssid.is_empty() {
            return Err(ConfigError::MissingSsid);
        }
        if self.wifi_ssid.as_bytes().len() > MAX_SSID_BYTES {
            return Err(ConfigError::SsidTooLong);
        }
        if self.wifi_pass.as_bytes().len() > MAX_PASSWORD_BYTES {
            return Err(ConfigError::PasswordTooLong);
        }
        Ok(())
    }
}

/// What is to be done after a failed attempt to join the network.
#[derive(Clone, Copy, Debug, PartialEq, Eq, Structural)]
pub enum Retry {
    /// Wait this many milliseconds and try again.
    After(u32),
    /// Stop trying.
    GiveUp,
}

/// The attempts to join the network. The first one may time out even when nothing is wrong.
pub struct WifiAttempts {
    attempt: u32,
}

impl View for WifiAttempts {
    type V = int;

    /// The number of the current attempt, counted from one.
    closed spec fn view(&self) -> int {
        self.attempt as int
    }
}

impl WifiAttempts {
    #[verifier::type_invariant]
    spec fn inv(self) -> bool {
        1 <= self.attempt <= MAX_ATTEMPTS
    }

    /// The first attempt.
    pub fn new() -> (a: WifiAttempts)
        ensures
            a@ == 1,
    {
        WifiAttempts { attempt: 1 }
    }

    /// The number of the current attempt, counted from one.
    pub fn number(&self) -> (n: u32)
        ensures
            n == self@,
            1 <= n <= MAX_ATTEMPTS,
    {
        proof {
            use_type_invariant(self);
        }
        self.attempt
    }

    /// The current attempt failed.
    pub fn failed(&mut self) -> (retry: Retry)
        ensures
            retry == retry_after(old(self)@),
            final(self)@ == next_attempt(old(self)@),
            1 <= final(self)@ <= MAX_ATTEMPTS,
    {
        proof {
            use_type_invariant(&*self);
        }
        if self.attempt < MAX_ATTEMPTS {
            self.attempt = self.attempt + 1;
            Retry::After(RETRY_DELAY_MS)
        } else {
            Retry::GiveUp
        }
    }
}

/// What is to be done when the given attempt has failed.
pub open spec fn retry_after(attempt: int) -> Retry {
    if attempt < MAX_ATTEMPTS {
        Retry::After(RETRY_DELAY_MS)
    } else {
        Retry::GiveUp
    }
}

/// The number of the attempt after the given one, which failed.
pub open spec fn next_attempt(attempt: int) -> int {
    if attempt < MAX_ATTEMPTS {
        attempt + 1
    } else {
        attempt
    }
}

/// The number of the current attempt after some failures.
pub open spec fn attempt_after(failures: nat) -> int
    decreases failures,
{
    if failures == 0 {
        1
    } else {
        next_attempt(attempt_after((failures - 1) as nat))
    }
}

/// Joining the network is given up at the fifth failure and not before: any earlier failure is
/// followed by a wait and the next attempt.
pub proof fn fifth_failure_gives_up(failures: nat)
    ensures
        retry_after(attempt_after(failures)) == (if failures + 1 < 5 {
            Retry::After(RETRY_DELAY_MS)
        } else {
            Retry::GiveUp
        }),
        failures < 5 ==> attempt_after(failures) == failures + 1,
        failures >= 5 ==> attempt_after(failures) == 5,
    decreases failures,
{
    if failures > 0 {
        fifth_failure_gives_up((failures - 1) as nat);
    }
}

/// Without settings there is no network name to join.
pub proof fn default_settings_lack_ssid(c: Config)
    requires
        c.wifi_ssid@ == ""@,
    ensures
        c.problem() == Some(ConfigError::MissingSsid),
{
    reveal_strlit("");
}

/// Settings are accepted if and only if there is a network name of at most 32 bytes and the
/// password has at most 64 bytes; each problem is reported exactly where it is the first one.
pub proof fn settings_are_accepted_iff_they_fit(c: Config)
    ensures
        c.problem() is None <==> c.wifi_ssid@.len() > 0 && vstd::utf8::encode_utf8(
            c.wifi_ssid@,
        ).len() <= 32 && vstd::utf8::encode_utf8(c.wifi_pass@).len() <= 64,
        c.problem() == Some(ConfigError::MissingSsid) <==> c.wifi_ssid@ == Seq::<char>::empty(),
        c.problem() == Some(ConfigError::SsidTooLong) <==> vstd::utf8::encode_utf8(
            c.wifi_ssid@,
        ).len() > 32,
        c.problem() == Some(ConfigError::PasswordTooLong) <==> c.wifi_ssid@.len() > 0
            && vstd::utf8::encode_utf8(c.wifi_ssid@).len() <= 32 && vstd::utf8::encode_utf8(
            c.wifi_pass@,
        ).len() > 64,
{
    if c.wifi_ssid@.len() == 0 {
        assert(c.wifi_ssid@ =~= Seq::<char>::empty());
        assert(vstd::utf8::encode_utf8(c.wifi_ssid@).len() == 0);
    }
}

/// The server's address has no say in whether the network can be joined.
pub proof fn server_is_not_checked(a: Config, b: Config)
    requires
        a.wifi_ssid@ == b.wifi_ssid@,
        a.wifi_pass@ == b.wifi_pass@,
    ensures
        a.problem() == b.problem(),
{
}

/// However a run of failures is followed: if the first attempt has the number one and each next
/// attempt comes from the one before, the attempts are numbered one to five; the first four
/// failures wait three seconds, and every later one gives up.
pub proof fn attempts_are_numbered_one_to_five(numbers: Seq<int>, i: int)
    requires
        0 <= i < numbers.len(),
        numbers[0] == 1,
        forall|k: int|
            0 <= k < numbers.len() - 1 ==> numbers[k + 1] == next_attempt(#[trigger] numbers[k]),
    ensures
        numbers[i] == (if i < 5 {
            i + 1
        } else {
            5
        }),
        retry_after(numbers[i]) == (if i < 4 {
            Retry::After(3000)
        } else {
            Retry::GiveUp
        }),
    decreases i,
{
    if i > 0 {
        attempts_are_numbered_one_to_five(numbers, i - 1);
        assert(numbers[i - 1 + 1] == next_attempt(numbers[i - 1]));
    }
}

} // verus!
