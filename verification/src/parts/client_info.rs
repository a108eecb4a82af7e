//! What the client tells the server about itself: pairs of a key and a
//! text. The pairs are kept in a map and sent in the order of the keys.

use crate::error::{HdbError, ImplError};
use crate::parts::length::{
    framed, framed_len, lemma_framed_len, serialize_length_and_string, string_length, MAX_LENGTH,
};
use crate::text::cesu8_encoding;
use crate::wire::lemma_append;
use std::collections::HashMap;
use vstd::prelude::*;
use vstd::std_specs::hash::*;

verus! {

broadcast use vstd::std_specs::hash::group_hash_axioms;

/// The name under which this driver presents itself.
pub const DRIVER_NAME: &'static str = "hdbconnect";

/// The version under which this driver presents itself.
pub const DRIVER_VERSION: &'static str = "0.1.0";

/// What this driver has to say about itself.
pub const DRIVER_INFO: &'static str = "rust rocks!";

/// The keys of the client info.
#[derive(Clone, Copy, Debug, PartialEq, Eq, Hash, Structural)]
pub enum ClientInfoKey {
    Application,
    ApplicationVersion,
    ApplicationSource,
    ApplicationUser,
    Driver,
    DriverInfo,
    DriverVersion,
}

/// The text under which a key is sent.
pub open spec fn key_text(key: ClientInfoKey) -> Seq<char> {
    match key {
        ClientInfoKey::Application => "APPLICATION"@,
        ClientInfoKey::ApplicationVersion => "APPLICATIONVERSION"@,
        ClientInfoKey::ApplicationSource => "APPLICATIONSOURCE"@,
        ClientInfoKey::ApplicationUser => "APPLICATIONUSER"@,
        ClientInfoKey::Driver => "DRIVER"@,
        ClientInfoKey::DriverInfo => "DRIVERINFO"@,
        ClientInfoKey::DriverVersion => "DRIVERVERSION"@,
    }
}

impl ClientInfoKey {
    /// The number under which the text of the key is kept.
    fn number(&self) -> (r: u8)
        ensures
            r == key_number(*self),
    {
        match self {
            ClientInfoKey::Application => 0,
            ClientInfoKey::ApplicationVersion => 1,
            ClientInfoKey::ApplicationSource => 2,
            ClientInfoKey::ApplicationUser => 3,
            ClientInfoKey::Driver => 4,
            ClientInfoKey::DriverInfo => 5,
            ClientInfoKey::DriverVersion => 6,
        }
    }

    /// The name of the key as it is sent.
    pub fn get_string(&self) -> (r: &'static str)
        ensures
            r@ == key_text(*self),
    {
        match self {
            ClientInfoKey::Application => "APPLICATION",
            ClientInfoKey::ApplicationVersion => "APPLICATIONVERSION",
            ClientInfoKey::ApplicationSource => "APPLICATIONSOURCE",
            ClientInfoKey::ApplicationUser => "APPLICATIONUSER",
            ClientInfoKey::Driver => "DRIVER",
            ClientInfoKey::DriverInfo => "DRIVERINFO",
            ClientInfoKey::DriverVersion => "DRIVERVERSION",
        }
    }
}

/// The number under which the text of a key is kept.
pub open spec fn key_number(key: ClientInfoKey) -> u8 {
    match key {
        ClientInfoKey::Application => 0,
        ClientInfoKey::ApplicationVersion => 1,
        ClientInfoKey::ApplicationSource => 2,
        ClientInfoKey::ApplicationUser => 3,
        ClientInfoKey::Driver => 4,
        ClientInfoKey::DriverInfo => 5,
        ClientInfoKey::DriverVersion => 6,
    }
}

/// The client info: a map from the keys that are set to their texts.
#[derive(Clone, Debug, PartialEq, Eq)]
pub struct ClientInfo {
    entries: HashMap<u8, String>,
}

/// The text that a map holds for a key, if it holds one.
pub open spec fn held(m: Map<u8, String>, key: ClientInfoKey) -> Option<Seq<char>> {
    if m.contains_key(key_number(key)) {
        Some(m[key_number(key)]@)
    } else {
        None
    }
}

/// The text as the contracts see it.
pub open spec fn text_ref(o: Option<&String>) -> Option<Seq<char>> {
    match o {
        Some(s) => Some(s@),
        None => None,
    }
}

/// The client info as the model sees it.
pub struct ClientInfoView {
    pub application: Option<Seq<char>>,
    pub application_version: Option<Seq<char>>,
    pub application_source: Option<Seq<char>>,
    pub application_user: Option<Seq<char>>,
    pub driver: Option<Seq<char>>,
    pub driver_info: Option<Seq<char>>,
    pub driver_version: Option<Seq<char>>,
}

impl ClientInfoView {
    /// The text that is set for a key.
    pub open spec fn get(self, key: ClientInfoKey) -> Option<Seq<char>> {
        match key {
            ClientInfoKey::Application => self.application,
            ClientInfoKey::ApplicationVersion => self.application_version,
            ClientInfoKey::ApplicationSource => self.application_source,
            ClientInfoKey::ApplicationUser => self.application_user,
            ClientInfoKey::Driver => self.driver,
            ClientInfoKey::DriverInfo => self.driver_info,
            ClientInfoKey::DriverVersion => self.driver_version,
        }
    }

    /// The info with the text of one key set.
    pub open spec fn set(self, key: ClientInfoKey, value: Seq<char>) -> ClientInfoView {
        match key {
            ClientInfoKey::Application => ClientInfoView { application: Some(value), ..self },
            ClientInfoKey::ApplicationVersion => ClientInfoView {
                application_version: Some(value),
                ..self
            },
            ClientInfoKey::ApplicationSource => ClientInfoView {
                application_source: Some(value),
                ..self
            },
            ClientInfoKey::ApplicationUser => ClientInfoView {
                application_user: Some(value),
                ..self
            },
            ClientInfoKey::Driver => ClientInfoView { driver: Some(value), ..self },
            ClientInfoKey::DriverInfo => ClientInfoView { driver_info: Some(value), ..self },
            ClientInfoKey::DriverVersion => ClientInfoView { driver_version: Some(value), ..self },
        }
    }

    /// Number of keys that are set.
    pub open spec fn pairs(self) -> int {
        present(self.application) + present(self.application_version) + present(
            self.application_source,
        ) + present(self.application_user) + present(self.driver) + present(self.driver_info)
            + present(self.driver_version)
    }

    /// The bytes of the info: for each key that is set, in the order of the
    /// keys, the key and the text, each behind its length indicator.
    pub open spec fn wire(self) -> Seq<u8> {
        pair_wire(ClientInfoKey::Application, self.application) + pair_wire(
            ClientInfoKey::ApplicationVersion,
            self.application_version,
        ) + pair_wire(ClientInfoKey::ApplicationSource, self.application_source) + pair_wire(
            ClientInfoKey::ApplicationUser,
            self.application_user,
        ) + pair_wire(ClientInfoKey::Driver, self.driver) + pair_wire(
            ClientInfoKey::DriverInfo,
            self.driver_info,
        ) + pair_wire(ClientInfoKey::DriverVersion, self.driver_version)
    }

    /// Number of bytes of the info.
    pub open spec fn size(self) -> int {
        pair_size(ClientInfoKey::Application, self.application) + pair_size(
            ClientInfoKey::ApplicationVersion,
            self.application_version,
        ) + pair_size(ClientInfoKey::ApplicationSource, self.application_source) + pair_size(
            ClientInfoKey::ApplicationUser,
            self.application_user,
        ) + pair_size(ClientInfoKey::Driver, self.driver) + pair_size(
            ClientInfoKey::DriverInfo,
            self.driver_info,
        ) + pair_size(ClientInfoKey::DriverVersion, self.driver_version)
    }

    /// Every key and every text fits a length indicator.
    pub open spec fn fits(self) -> bool {
        pair_fits(ClientInfoKey::Application, self.application) && pair_fits(
            ClientInfoKey::ApplicationVersion,
            self.application_version,
        ) && pair_fits(ClientInfoKey::ApplicationSource, self.application_source) && pair_fits(
            ClientInfoKey::ApplicationUser,
            self.application_user,
        ) && pair_fits(ClientInfoKey::Driver, self.driver) && pair_fits(
            ClientInfoKey::DriverInfo,
            self.driver_info,
        ) && pair_fits(ClientInfoKey::DriverVersion, self.driver_version)
    }
}

/// One for a value that is set, zero for none.
pub open spec fn present(o: Option<Seq<char>>) -> int {
    if o is Some {
        1
    } else {
        0
    }
}

/// The bytes of one pair, none if the key is not set.
pub open spec fn pair_wire(key: ClientInfoKey, o: Option<Seq<char>>) -> Seq<u8> {
    match o {
        Some(t) => framed(cesu8_encoding(key_text(key))) + framed(cesu8_encoding(t)),
        None => Seq::<u8>::empty(),
    }
}

/// Number of bytes of one pair.
pub open spec fn pair_size(key: ClientInfoKey, o: Option<Seq<char>>) -> int {
    match o {
        Some(t) => framed_len(cesu8_encoding(key_text(key)).len() as int) + framed_len(
            cesu8_encoding(t).len() as int,
        ),
        None => 0,
    }
}

/// Whether key and value are short enough to be sent.
pub open spec fn pair_fits(key: ClientInfoKey, o: Option<Seq<char>>) -> bool {
    match o {
        Some(t) => cesu8_encoding(key_text(key)).len() <= MAX_LENGTH && cesu8_encoding(t).len()
            <= MAX_LENGTH,
        None => true,
    }
}

/// One pair has the size that `pair_size` says.
pub proof fn lemma_pair_size(key: ClientInfoKey, o: Option<Seq<char>>)
    ensures
        pair_wire(key, o).len() == pair_size(key, o),
        pair_size(key, o) >= 0,
{
    match o {
        Some(t) => {
            lemma_framed_len(cesu8_encoding(key_text(key)));
            lemma_framed_len(cesu8_encoding(t));
        },
        None => {},
    }
}

/// The info has the size that `size` says.
pub proof fn lemma_client_info_size(v: ClientInfoView)
    ensures
        v.wire().len() == v.size(),
{
    lemma_pair_size(ClientInfoKey::Application, v.application);
    lemma_pair_size(ClientInfoKey::ApplicationVersion, v.application_version);
    lemma_pair_size(ClientInfoKey::ApplicationSource, v.application_source);
    lemma_pair_size(ClientInfoKey::ApplicationUser, v.application_user);
    lemma_pair_size(ClientInfoKey::Driver, v.driver);
    lemma_pair_size(ClientInfoKey::DriverInfo, v.driver_info);
    lemma_pair_size(ClientInfoKey::DriverVersion, v.driver_version);
}

/// Size of one pair, added to a running total.
fn add_pair_size(total: usize, key: ClientInfoKey, o: Option<&String>) -> (r: Result<
    usize,
    HdbError,
>)
    ensures
        match r {
            Ok(n) => pair_fits(key, text_ref(o)) && n == total + pair_size(key, text_ref(o)),
            Err(e) => e == HdbError::Impl(ImplError::TooLarge) && (!pair_fits(key, text_ref(o))
                || total + pair_size(key, text_ref(o)) > usize::MAX),
        },
{
    match o {
        None => Ok(total),
        Some(value) => {
            let k: usize = string_length(key.get_string())?;
            let v: usize = string_length(value.as_str())?;
            match k.checked_add(v) {
                None => Err(HdbError::Impl(ImplError::TooLarge)),
                Some(kv) => match total.checked_add(kv) {
                    None => Err(HdbError::Impl(ImplError::TooLarge)),
                    Some(n) => Ok(n),
                },
            }
        },
    }
}

/// Appends one pair.
fn emit_pair(key: ClientInfoKey, o: Option<&String>, w: &mut Vec<u8>)
    requires
        pair_fits(key, text_ref(o)),
    ensures
        final(w)@ == old(w)@ + pair_wire(key, text_ref(o)),
{
    match o {
        None => {
            assert(w@ =~= old(w)@ + pair_wire(key, text_ref(o)));
        },
        Some(value) => {
            match serialize_length_and_string(key.get_string(), w) {
                Ok(()) => {},
                Err(_) => {
                    proof {
                        assert(false);
                    }
                },
            }
            match serialize_length_and_string(value.as_str(), w) {
                Ok(()) => {},
                Err(_) => {
                    proof {
                        assert(false);
                    }
                },
            }
            assert(w@ =~= old(w)@ + pair_wire(key, text_ref(o)));
        },
    }
}

impl View for ClientInfo {
    type V = ClientInfoView;

    closed spec fn view(&self) -> ClientInfoView {
        ClientInfoView {
            application: held(self.entries@, ClientInfoKey::Application),
            application_version: held(self.entries@, ClientInfoKey::ApplicationVersion),
            application_source: held(self.entries@, ClientInfoKey::ApplicationSource),
            application_user: held(self.entries@, ClientInfoKey::ApplicationUser),
            driver: held(self.entries@, ClientInfoKey::Driver),
            driver_info: held(self.entries@, ClientInfoKey::DriverInfo),
            driver_version: held(self.entries@, ClientInfoKey::DriverVersion),
        }
    }
}

impl Default for ClientInfo {
    /// The info with name, version and motto of the driver.
    fn default() -> (r: ClientInfo)
        ensures
            r@ == (ClientInfoView {
                application: None,
                application_version: None,
                application_source: None,
                application_user: None,
                driver: Some(DRIVER_NAME@),
                driver_info: Some(DRIVER_INFO@),
                driver_version: Some(DRIVER_VERSION@),
            }),
    {
        let mut ci = ClientInfo { entries: HashMap::new() };
        ci.set_driver(DRIVER_NAME);
        ci.set_driver_version(DRIVER_VERSION);
        ci.set_driver_info(DRIVER_INFO);
        ci
    }
}

impl ClientInfo {
    /// Names the application.
    pub fn set_application(&mut self, application: &str)
        ensures
            final(self)@ == old(self)@.set(ClientInfoKey::Application, application@),
    {
        self.set(ClientInfoKey::Application, application);
    }

    /// Names the version of the application.
    pub fn set_application_version(&mut self, application_version: &str)
        ensures
            final(self)@ == old(self)@.set(
                ClientInfoKey::ApplicationVersion,
                application_version@,
            ),
    {
        self.set(ClientInfoKey::ApplicationVersion, application_version);
    }

    /// Names the place in the application that issues the requests.
    pub fn set_application_source(&mut self, application_source: &str)
        ensures
            final(self)@ == old(self)@.set(ClientInfoKey::ApplicationSource, application_source@),
    {
        self.set(ClientInfoKey::ApplicationSource, application_source);
    }

    /// Names the user of the application.
    pub fn set_application_user(&mut self, application_user: &str)
        ensures
            final(self)@ == old(self)@.set(ClientInfoKey::ApplicationUser, application_user@),
    {
        self.set(ClientInfoKey::ApplicationUser, application_user);
    }

    /// Names the driver.
    pub fn set_driver(&mut self, driver: &str)
        ensures
            final(self)@ == old(self)@.set(ClientInfoKey::Driver, driver@),
    {
        self.set(ClientInfoKey::Driver, driver);
    }

    /// Sets the free text about the driver.
    pub fn set_driver_info(&mut self, driver_info: &str)
        ensures
            final(self)@ == old(self)@.set(ClientInfoKey::DriverInfo, driver_info@),
    {
        self.set(ClientInfoKey::DriverInfo, driver_info);
    }

    /// Names the version of the driver.
    pub fn set_driver_version(&mut self, driver_version: &str)
        ensures
            final(self)@ == old(self)@.set(ClientInfoKey::DriverVersion, driver_version@),
    {
        self.set(ClientInfoKey::DriverVersion, driver_version);
    }

    /// Appends the pairs. Fails, and writes nothing, if a text does not fit
    /// a length indicator.
    pub fn emit(&self, w: &mut Vec<u8>) -> (r: Result<(), HdbError>)
        ensures
            match r {
                Ok(()) => self@.fits() && final(w)@ == old(w)@ + self@.wire(),
                Err(e) => e == HdbError::Impl(ImplError::TooLarge) && final(w)@ == old(w)@ && (
                !self@.fits() || self@.size() > usize::MAX),
            },
    {
        let _ = self.size()?;
        let ghost v = self@;
        let ghost w0 = w@;
        emit_pair(ClientInfoKey::Application, self.text(ClientInfoKey::Application), w);
        let ghost a1 = pair_wire(ClientInfoKey::Application, v.application);
        emit_pair(
            ClientInfoKey::ApplicationVersion,
            self.text(ClientInfoKey::ApplicationVersion),
            w,
        );
        let ghost a2 = a1 + pair_wire(ClientInfoKey::ApplicationVersion, v.application_version);
        proof {
            lemma_append(
                w0,
                a1,
                pair_wire(ClientInfoKey::ApplicationVersion, v.application_version),
            );
        }
        emit_pair(ClientInfoKey::ApplicationSource, self.text(ClientInfoKey::ApplicationSource), w);
        let ghost a3 = a2 + pair_wire(ClientInfoKey::ApplicationSource, v.application_source);
        proof {
            lemma_append(w0, a2, pair_wire(ClientInfoKey::ApplicationSource, v.application_source));
        }
        emit_pair(ClientInfoKey::ApplicationUser, self.text(ClientInfoKey::ApplicationUser), w);
        let ghost a4 = a3 + pair_wire(ClientInfoKey::ApplicationUser, v.application_user);
        proof {
            lemma_append(w0, a3, pair_wire(ClientInfoKey::ApplicationUser, v.application_user));
        }
        emit_pair(ClientInfoKey::Driver, self.text(ClientInfoKey::Driver), w);
        let ghost a5 = a4 + pair_wire(ClientInfoKey::Driver, v.driver);
        proof {
            lemma_append(w0, a4, pair_wire(ClientInfoKey::Driver, v.driver));
        }
        emit_pair(ClientInfoKey::DriverInfo, self.text(ClientInfoKey::DriverInfo), w);
        let ghost a6 = a5 + pair_wire(ClientInfoKey::DriverInfo, v.driver_info);
        proof {
            lemma_append(w0, a5, pair_wire(ClientInfoKey::DriverInfo, v.driver_info));
        }
        emit_pair(ClientInfoKey::DriverVersion, self.text(ClientInfoKey::DriverVersion), w);
        proof {
            lemma_append(w0, a6, pair_wire(ClientInfoKey::DriverVersion, v.driver_version));
            assert(v.wire() == a6 + pair_wire(ClientInfoKey::DriverVersion, v.driver_version));
        }
        Ok(())
    }

    /// Number of bytes that `emit` writes.
    pub fn size(&self) -> (r: Result<usize, HdbError>)
        ensures
            match r {
                Ok(n) => self@.fits() && n == self@.size(),
                Err(e) => e == HdbError::Impl(ImplError::TooLarge) && (!self@.fits()
                    || self@.size() > usize::MAX),
            },
    {
        proof {
            lemma_pair_size(ClientInfoKey::Application, self@.application);
            lemma_pair_size(ClientInfoKey::ApplicationVersion, self@.application_version);
            lemma_pair_size(ClientInfoKey::ApplicationSource, self@.application_source);
            lemma_pair_size(ClientInfoKey::ApplicationUser, self@.application_user);
            lemma_pair_size(ClientInfoKey::Driver, self@.driver);
            lemma_pair_size(ClientInfoKey::DriverInfo, self@.driver_info);
            lemma_pair_size(ClientInfoKey::DriverVersion, self@.driver_version);
        }
        let mut len: usize = 0;
        len = add_pair_size(
            len,
            ClientInfoKey::Application,
            self.text(ClientInfoKey::Application),
        )?;
        len = add_pair_size(
            len,
            ClientInfoKey::ApplicationVersion,
            self.text(ClientInfoKey::ApplicationVersion),
        )?;
        len = add_pair_size(
            len,
            ClientInfoKey::ApplicationSource,
            self.text(ClientInfoKey::ApplicationSource),
        )?;
        len = add_pair_size(
            len,
            ClientInfoKey::ApplicationUser,
            self.text(ClientInfoKey::ApplicationUser),
        )?;
        len = add_pair_size(len, ClientInfoKey::Driver, self.text(ClientInfoKey::Driver))?;
        len = add_pair_size(len, ClientInfoKey::DriverInfo, self.text(ClientInfoKey::DriverInfo))?;
        len = add_pair_size(
            len,
            ClientInfoKey::DriverVersion,
            self.text(ClientInfoKey::DriverVersion),
        )?;
        Ok(len)
    }

    /// Number of entries: one for each key that is set.
    pub fn count(&self) -> (r: usize)
        ensures
            r == self@.pairs(),
    {
        let mut n: usize = 0;
        if self.text(ClientInfoKey::Application).is_some() {
            n = n + 1;
        }
        if self.text(ClientInfoKey::ApplicationVersion).is_some() {
            n = n + 1;
        }
        if self.text(ClientInfoKey::ApplicationSource).is_some() {
            n = n + 1;
        }
        if self.text(ClientInfoKey::ApplicationUser).is_some() {
            n = n + 1;
        }
        if self.text(ClientInfoKey::Driver).is_some() {
            n = n + 1;
        }
        if self.text(ClientInfoKey::DriverInfo).is_some() {
            n = n + 1;
        }
        if self.text(ClientInfoKey::DriverVersion).is_some() {
            n = n + 1;
        }
        n
    }

    /// Sets the text of a key; a text that was set before is replaced.
    pub fn set(&mut self, key: ClientInfoKey, value: &str)
        ensures
            final(self)@ == old(self)@.set(key, value@),
            final(self)@.get(key) == Some(value@),
    {
        let value: String = value.to_owned();
        let number: u8 = key.number();
        self.entries.insert(number, value);
    }

    /// The text that is set for a key.
    fn text(&self, key: ClientInfoKey) -> (r: Option<&String>)
        ensures
            text_ref(r) == self@.get(key),
    {
        let number: u8 = key.number();
        self.entries.get(&number)
    }
}

} // verus!
