//! Non-volatile storage of the node configuration: the record format and
//! the policy for reading and replacing it. The flash driver implements
//! `ConfigStorage`; `MemoryConfigStorage` keeps the record in memory.

use vstd::prelude::*;

use crate::common::codec::{write_text, CodecError};
use crate::node::config::{config_error, config_json, ConfigValidationError, NodeConfigView, PersistedNodeConfig};

verus! {

pub const CONFIG_STORAGE_FORMAT_VERSION: u8 = 2;
pub const CONFIG_STORAGE_SIZE: usize = 4096;

/// The stored record: the format version and the configuration.
#[derive(Debug, PartialEq, Eq)]
pub struct StorageEnvelope {
    pub version: u8,
    pub config: PersistedNodeConfig,
}

/// The JSON text of a stored record.
pub open spec fn envelope_json(version: u8, config: NodeConfigView) -> Seq<char> {
    "{\"version\":"@ + crate::common::json::json_unsigned(version as nat) + ",\"config\":"@
        + config_json(config) + "}"@
}

/// The bytes of the stored record of a configuration.
pub open spec fn config_record(config: NodeConfigView) -> Seq<u8> {
    vstd::utf8::encode_utf8(envelope_json(CONFIG_STORAGE_FORMAT_VERSION, config))
}

/// Where the configuration record lives. Each operation's success is a
/// property of the storage's state and the operation's input, and each
/// leaves the storage in a state that the implementation describes.
pub trait ConfigStorage: Sized {
    type Error;

    /// The record the storage holds; empty when it holds none.
    spec fn stored(&self) -> Seq<u8>;

    /// Whether a read succeeds in this state.
    spec fn read_ok(&self) -> bool;

    /// Whether `next` is a state that a read leaves behind.
    spec fn read_leaves(&self, next: Self) -> bool;

    /// How many bytes a successful read into a buffer of `destination_len`
    /// bytes reports.
    spec fn read_len(&self, destination_len: nat) -> nat;

    /// Whether writing `data` succeeds in this state.
    spec fn write_ok(&self, data: Seq<u8>) -> bool;

    /// Whether `next` is a state that writing `data` leaves behind, the
    /// write succeeding or not.
    spec fn write_leaves(&self, data: Seq<u8>, next: Self) -> bool;

    /// Whether a clear succeeds in this state.
    spec fn clear_ok(&self) -> bool;

    /// Whether `next` is a state that a clear leaves behind.
    spec fn clear_leaves(&self, next: Self) -> bool;

    /// Reads the stored record into `destination`; an erased or empty region
    /// reads as 0 bytes. What was read is the front of the record.
    fn read(&mut self, destination: &mut [u8]) -> (r: Result<usize, Self::Error>)
        ensures
            r is Ok <==> old(self).read_ok(),
            r matches Ok(n) ==> n == old(self).read_len(old(destination)@.len()),
            old(self).read_leaves(*final(self)),
            final(self).stored() == old(self).stored(),
            final(destination)@.len() == old(destination)@.len(),
            r matches Ok(n) ==> n <= old(destination)@.len() && n <= old(self).stored().len()
                && final(destination)@.subrange(0, n as int) == old(self).stored().subrange(
                0,
                n as int,
            ),
    ;

    /// Replaces the record; once it succeeds the record is `data`.
    fn write(&mut self, data: &[u8]) -> (r: Result<(), Self::Error>)
        ensures
            r is Ok <==> old(self).write_ok(data@),
            old(self).write_leaves(data@, *final(self)),
            r is Ok ==> final(self).stored() == data@,
    ;

    /// Erases the record; once it succeeds the storage holds none.
    fn clear(&mut self) -> (r: Result<(), Self::Error>)
        ensures
            r is Ok <==> old(self).clear_ok(),
            old(self).clear_leaves(*final(self)),
            r is Ok ==> final(self).stored() == Seq::<u8>::empty(),
    ;
}

#[derive(Debug)]
pub enum ConfigManagerError<E> {
    InvalidConfig(ConfigValidationError),
    Storage(E),
    Serialization(CodecError),
}

/// The record a read left in `buffer`, given the storage's answer: the
/// first `n` bytes when it read `n` bytes, at least one, no more than the
/// buffer and the record area hold; none when it read nothing, more than
/// that, or failed.
pub fn stored_record<E>(buffer: &[u8], read: Result<usize, E>) -> (r: Option<Vec<u8>>)
    ensures
        match read {
            Ok(n) => if 0 < n && n <= buffer@.len() && n <= CONFIG_STORAGE_SIZE {
                r matches Some(bytes) && bytes@ == buffer@.subrange(0, n as int)
            } else {
                r is None
            },
            Err(_) => r is None,
        },
{
    match read {
        Ok(used) => if used > 0 && used <= buffer.len() && used <= CONFIG_STORAGE_SIZE {
            let mut record: Vec<u8> = Vec::new();
            let mut k: usize = 0;
            while k < used
                invariant
                    k <= used <= buffer@.len(),
                    record@ == buffer@.subrange(0, k as int),
                decreases used - k,
            {
                record.push(buffer[k]);
                proof {
                    assert(record@ =~= buffer@.subrange(0, k as int + 1));
                }
                k = k + 1;
            }
            Some(record)
        } else {
            None
        },
        Err(_) => None,
    }
}

/// The active configuration and the storage it came from.
#[derive(Debug)]
pub struct ConfigManager<S> {
    storage: S,
    config: PersistedNodeConfig,
}

/// The configuration chosen at boot: the stored one if its record decoded,
/// has the current format version and passes validation; the defaults
/// otherwise.
pub open spec fn chosen_config(decoded: Option<StorageEnvelope>, defaults: NodeConfigView) -> NodeConfigView {
    match decoded {
        Some(e) => if e.version == CONFIG_STORAGE_FORMAT_VERSION && config_error(e.config@) is None {
            e.config@
        } else {
            defaults
        },
        None => defaults,
    }
}

impl<S: ConfigStorage> ConfigManager<S> {
    pub closed spec fn spec_config(&self) -> NodeConfigView {
        self.config@
    }

    pub closed spec fn spec_storage(&self) -> S {
        self.storage
    }

    /// The stored record's bytes, or `None` when the storage is empty,
    /// unreadable or reports more than the record area holds. The storage is
    /// read once into a buffer the size of the record area; whether the read
    /// succeeds, and how much it reports, is the storage's answer.
    pub fn read_stored(storage: &mut S) -> (r: Option<Vec<u8>>)
        ensures
            old(storage).read_leaves(*final(storage)),
            final(storage).stored() == old(storage).stored(),
            ({
                let k = old(storage).read_len(CONFIG_STORAGE_SIZE as nat);
                if old(storage).read_ok() && 0 < k <= CONFIG_STORAGE_SIZE {
                    r matches Some(bytes) && bytes@ == old(storage).stored().subrange(0, k as int)
                } else {
                    r is None
                }
            }),
    {
        let mut raw: Vec<u8> = Vec::new();
        let mut i: usize = 0;
        while i < CONFIG_STORAGE_SIZE
            invariant
                i <= CONFIG_STORAGE_SIZE,
                raw@.len() == i,
            decreases CONFIG_STORAGE_SIZE - i,
        {
            raw.push(0u8);
            i = i + 1;
        }
        let read = storage.read(raw.as_mut_slice());
        stored_record(raw.as_slice(), read)
    }

    /// The manager at boot. `decoded` is the stored record as decoded, if it
    /// was read and decoded; an invalid, stale or unreadable record counts as
    /// absent, so that a torn write cannot stop the node from booting.
    pub fn with_stored(storage: S, defaults: PersistedNodeConfig, decoded: Option<StorageEnvelope>) -> (r:
        Self)
        ensures
            r.spec_config() == chosen_config(decoded, defaults@),
            r.spec_storage() == storage,
    {
        let config = match decoded {
            Some(envelope) => if envelope.version == CONFIG_STORAGE_FORMAT_VERSION
                && envelope.config.validate().is_ok() {
                envelope.config
            } else {
                defaults
            },
            None => defaults,
        };
        ConfigManager { storage, config }
    }

    pub fn config(&self) -> (r: &PersistedNodeConfig)
        ensures
            r@ == self.spec_config(),
    {
        &self.config
    }

    /// Validates and encodes the configuration before touching the storage.
    /// The active configuration changes only once the record was written.
    pub fn set_config(&mut self, config: PersistedNodeConfig) -> (r: Result<
        (),
        ConfigManagerError<S::Error>,
    >)
        ensures
            match config_error(config@) {
                Some(e) => (r matches Err(ConfigManagerError::InvalidConfig(x)) && x == e)
                    && final(self).spec_config() == old(self).spec_config()
                    && final(self).spec_storage() == old(self).spec_storage(),
                None => if config_record(config@).len() > CONFIG_STORAGE_SIZE {
                    (r matches Err(ConfigManagerError::Serialization(x)) && x
                        == CodecError::BufferTooSmall) && final(self).spec_config() == old(
                        self,
                    ).spec_config() && final(self).spec_storage() == old(self).spec_storage()
                } else {
                    &&& (r is Ok <==> old(self).spec_storage().write_ok(config_record(config@)))
                    &&& old(self).spec_storage().write_leaves(
                        config_record(config@),
                        final(self).spec_storage(),
                    )
                    &&& match r {
                        Ok(()) => final(self).spec_config() == config@
                            && final(self).spec_storage().stored() == config_record(config@),
                        Err(e) => e is Storage && final(self).spec_config() == old(
                            self,
                        ).spec_config(),
                    }
                },
            },
    {
        if let Err(e) = config.validate() {
            return Err(ConfigManagerError::InvalidConfig(e));
        }
        let mut json = String::new();
        json.append("{\"version\":");
        crate::common::json::push_unsigned(&mut json, CONFIG_STORAGE_FORMAT_VERSION as u64);
        json.append(",\"config\":");
        let body = config.to_json();
        json.append(body.as_str());
        json.append("}");
        proof {
            assert(json@ =~= envelope_json(CONFIG_STORAGE_FORMAT_VERSION, config@));
        }
        let mut raw: Vec<u8> = Vec::new();
        let mut i: usize = 0;
        while i < CONFIG_STORAGE_SIZE
            invariant
                i <= CONFIG_STORAGE_SIZE,
                raw@.len() == i,
            decreases CONFIG_STORAGE_SIZE - i,
        {
            raw.push(0u8);
            i = i + 1;
        }
        let used = match write_text(json.as_str(), raw.as_mut_slice()) {
            Ok(n) => n,
            Err(e) => {
                return Err(ConfigManagerError::Serialization(e));
            },
        };
        let record = vstd::slice::slice_subrange(raw.as_slice(), 0, used);
        assert(record@ == vstd::utf8::encode_utf8(json@));
        match self.storage.write(record) {
            Ok(()) => {
                self.config = config;
                Ok(())
            },
            Err(e) => Err(ConfigManagerError::Storage(e)),
        }
    }

    /// Clears the stored record only; the running configuration stays until
    /// the next boot picks the defaults.
    pub fn factory_reset(&mut self) -> (r: Result<(), ConfigManagerError<S::Error>>)
        ensures
            final(self).spec_config() == old(self).spec_config(),
            r is Ok <==> old(self).spec_storage().clear_ok(),
            old(self).spec_storage().clear_leaves(final(self).spec_storage()),
            r is Ok ==> final(self).spec_storage().stored() == Seq::<u8>::empty(),
            r matches Err(e) ==> e is Storage,
    {
        match self.storage.clear() {
            Ok(()) => Ok(()),
            Err(e) => Err(ConfigManagerError::Storage(e)),
        }
    }

    pub fn storage(&self) -> (r: &S)
        ensures
            *r == self.spec_storage(),
    {
        &self.storage
    }
}

#[derive(Clone, Copy, Debug, PartialEq, Eq, Structural)]
pub enum MemoryStorageError {
    Read,
    Write,
    Clear,
}

/// A record area of `N` bytes held in memory, with switches that make the
/// next read, write or clear fail.
#[derive(Debug)]
pub struct MemoryConfigStorage<const N: usize> {
    bytes: Vec<u8>,
    len: usize,
    fail_read: bool,
    fail_write: bool,
    fail_clear: bool,
}

fn zeros(n: usize) -> (r: Vec<u8>)
    ensures
        r@ == Seq::new(n as nat, |i: int| 0u8),
{
    let mut v: Vec<u8> = Vec::new();
    let mut i: usize = 0;
    while i < n
        invariant
            i <= n,
            v@ == Seq::new(i as nat, |k: int| 0u8),
        decreases n - i,
    {
        v.push(0u8);
        proof {
            assert(v@ =~= Seq::new(i as nat + 1, |k: int| 0u8));
        }
        i = i + 1;
    }
    v
}

impl<const N: usize> MemoryConfigStorage<N> {
    /// The stored record.
    pub closed spec fn record(&self) -> Seq<u8> {
        self.bytes@.subrange(0, self.len as int)
    }

    pub closed spec fn failing_read(&self) -> bool {
        self.fail_read
    }

    pub closed spec fn failing_write(&self) -> bool {
        self.fail_write
    }

    pub closed spec fn failing_clear(&self) -> bool {
        self.fail_clear
    }

    #[verifier::type_invariant]
    closed spec fn wf(&self) -> bool {
        self.bytes@.len() == N && self.len <= N
    }

    /// An area holding the first `N` bytes of `bytes`.
    pub fn from_record(bytes: &[u8]) -> (r: Self)
        ensures
            r.record() == bytes@.subrange(0, if bytes@.len() < N { bytes@.len() as int } else { N as int }),
            !r.failing_read() && !r.failing_write() && !r.failing_clear(),
    {
        let count = if bytes.len() < N {
            bytes.len()
        } else {
            N
        };
        let mut area = zeros(N);
        let mut i: usize = 0;
        while i < count
            invariant
                i <= count <= N,
                count <= bytes@.len(),
                area@.len() == N,
                forall|k: int| 0 <= k < i ==> area@[k] == bytes@[k],
            decreases count - i,
        {
            area.set(i, bytes[i]);
            i = i + 1;
        }
        let storage = MemoryConfigStorage::<N> {
            bytes: area,
            len: count,
            fail_read: false,
            fail_write: false,
            fail_clear: false,
        };
        proof {
            assert(storage.record() =~= bytes@.subrange(0, count as int));
        }
        storage
    }

    pub fn fail_next_read(&mut self)
        ensures
            final(self).failing_read(),
            final(self).failing_write() == old(self).failing_write(),
            final(self).failing_clear() == old(self).failing_clear(),
            final(self).record() == old(self).record(),
    {
        proof {
            use_type_invariant(&*self);
        }
        self.fail_read = true;
    }

    pub fn fail_next_write(&mut self)
        ensures
            final(self).failing_write(),
            final(self).failing_read() == old(self).failing_read(),
            final(self).failing_clear() == old(self).failing_clear(),
            final(self).record() == old(self).record(),
    {
        proof {
            use_type_invariant(&*self);
        }
        self.fail_write = true;
    }

    pub fn fail_next_clear(&mut self)
        ensures
            final(self).failing_clear(),
            final(self).failing_read() == old(self).failing_read(),
            final(self).failing_write() == old(self).failing_write(),
            final(self).record() == old(self).record(),
    {
        proof {
            use_type_invariant(&*self);
        }
        self.fail_clear = true;
    }

    /// Copies the record, as much of it as fits, to the front of
    /// `destination`. A switched-on read failure fails once.
    pub fn read_record(&mut self, destination: &mut [u8]) -> (r: Result<usize, MemoryStorageError>)
        ensures
            final(self).record() == old(self).record(),
            final(self).failing_write() == old(self).failing_write(),
            final(self).failing_clear() == old(self).failing_clear(),
            !final(self).failing_read(),
            final(destination)@.len() == old(destination)@.len(),
            if old(self).failing_read() {
                r == Err::<usize, MemoryStorageError>(MemoryStorageError::Read)
            } else {
                &&& r matches Ok(n)
                &&& n == if old(self).record().len() < old(destination)@.len() {
                    old(self).record().len()
                } else {
                    old(destination)@.len() as nat
                }
                &&& final(destination)@.subrange(0, n as int) == old(self).record().subrange(0, n as int)
            },
    {
        proof {
            use_type_invariant(&*self);
        }
        if self.fail_read {
            self.fail_read = false;
            return Err(MemoryStorageError::Read);
        }
        let count = if self.len < destination.len() {
            self.len
        } else {
            destination.len()
        };
        let mut i: usize = 0;
        while i < count
            invariant
                i <= count <= self.len,
                count <= destination@.len(),
                destination@.len() == old(destination)@.len(),
                self.bytes@.len() == N,
                self.len <= N,
                forall|k: int| 0 <= k < i ==> destination@[k] == self.bytes@[k],
            decreases count - i,
        {
            destination[i] = self.bytes[i];
            i = i + 1;
        }
        proof {
            assert(destination@.subrange(0, count as int) =~= self.record().subrange(0, count as int));
        }
        Ok(count)
    }

    /// Replaces the record with `data`, which must fit the area. A
    /// switched-on write failure fails once.
    pub fn write_record(&mut self, data: &[u8]) -> (r: Result<(), MemoryStorageError>)
        ensures
            final(self).failing_read() == old(self).failing_read(),
            final(self).failing_clear() == old(self).failing_clear(),
            !final(self).failing_write(),
            if old(self).failing_write() || data@.len() > N {
                r == Err::<(), MemoryStorageError>(MemoryStorageError::Write) && final(self).record()
                    == old(self).record()
            } else {
                r is Ok && final(self).record() == data@
            },
    {
        proof {
            use_type_invariant(&*self);
        }
        if self.fail_write {
            self.fail_write = false;
            return Err(MemoryStorageError::Write);
        }
        if data.len() > N {
            return Err(MemoryStorageError::Write);
        }
        let mut fresh = zeros(N);
        let mut i: usize = 0;
        while i < data.len()
            invariant
                i <= data@.len() <= N,
                fresh@.len() == N,
                forall|k: int| 0 <= k < i ==> fresh@[k] == data@[k],
            decreases data@.len() - i,
        {
            fresh.set(i, data[i]);
            i = i + 1;
        }
        self.bytes = fresh;
        self.len = data.len();
        proof {
            assert(self.record() =~= data@);
        }
        Ok(())
    }

    /// Erases the record. A switched-on clear failure fails once.
    pub fn clear_record(&mut self) -> (r: Result<(), MemoryStorageError>)
        ensures
            final(self).failing_read() == old(self).failing_read(),
            final(self).failing_write() == old(self).failing_write(),
            !final(self).failing_clear(),
            if old(self).failing_clear() {
                r == Err::<(), MemoryStorageError>(MemoryStorageError::Clear) && final(self).record()
                    == old(self).record()
            } else {
                r is Ok && final(self).record() == Seq::<u8>::empty()
            },
    {
        proof {
            use_type_invariant(&*self);
        }
        if self.fail_clear {
            self.fail_clear = false;
            return Err(MemoryStorageError::Clear);
        }
        self.bytes = zeros(N);
        self.len = 0;
        proof {
            assert(self.record() =~= Seq::<u8>::empty());
        }
        Ok(())
    }
}

impl<const N: usize> Clone for MemoryConfigStorage<N> {
    fn clone(&self) -> (r: Self)
        ensures
            r.record() == self.record(),
            r.failing_read() == self.failing_read(),
            r.failing_write() == self.failing_write(),
            r.failing_clear() == self.failing_clear(),
    {
        proof {
            use_type_invariant(self);
        }
        let mut bytes = zeros(N);
        let mut i: usize = 0;
        while i < N
            invariant
                i <= N,
                bytes@.len() == N,
                self.bytes@.len() == N,
                forall|k: int| 0 <= k < i ==> bytes@[k] == self.bytes@[k],
            decreases N - i,
        {
            bytes.set(i, self.bytes[i]);
            i = i + 1;
        }
        let r = MemoryConfigStorage {
            bytes,
            len: self.len,
            fail_read: self.fail_read,
            fail_write: self.fail_write,
            fail_clear: self.fail_clear,
        };
        proof {
            assert(r.record() =~= self.record());
        }
        r
    }
}

impl<const N: usize> Default for MemoryConfigStorage<N> {
    fn default() -> (r: Self)
        ensures
            r.record() == Seq::<u8>::empty(),
            !r.failing_read() && !r.failing_write() && !r.failing_clear(),
    {
        let r = MemoryConfigStorage {
            bytes: zeros(N),
            len: 0,
            fail_read: false,
            fail_write: false,
            fail_clear: false,
        };
        proof {
            assert(r.record() =~= Seq::<u8>::empty());
        }
        r
    }
}

impl<const N: usize> ConfigStorage for MemoryConfigStorage<N> {
    type Error = MemoryStorageError;

    open spec fn stored(&self) -> Seq<u8> {
        self.record()
    }

    open spec fn read_ok(&self) -> bool {
        !self.failing_read()
    }

    /// A read keeps the record and the write and clear switches, and spends
    /// the read switch.
    open spec fn read_leaves(&self, next: Self) -> bool {
        &&& next.record() == self.record()
        &&& !next.failing_read()
        &&& next.failing_write() == self.failing_write()
        &&& next.failing_clear() == self.failing_clear()
    }

    /// A read reports as much of the record as fits the buffer.
    open spec fn read_len(&self, destination_len: nat) -> nat {
        if self.record().len() < destination_len {
            self.record().len()
        } else {
            destination_len
        }
    }

    open spec fn write_ok(&self, data: Seq<u8>) -> bool {
        !self.failing_write() && data.len() <= N
    }

    /// A write replaces the record when it succeeds and keeps it otherwise;
    /// it keeps the read and clear switches and spends the write switch.
    open spec fn write_leaves(&self, data: Seq<u8>, next: Self) -> bool {
        &&& next.record() == if self.write_ok(data) {
            data
        } else {
            self.record()
        }
        &&& next.failing_read() == self.failing_read()
        &&& !next.failing_write()
        &&& next.failing_clear() == self.failing_clear()
    }

    open spec fn clear_ok(&self) -> bool {
        !self.failing_clear()
    }

    /// A clear empties the record when it succeeds and keeps it otherwise;
    /// it keeps the read and write switches and spends the clear switch.
    open spec fn clear_leaves(&self, next: Self) -> bool {
        &&& next.record() == if self.clear_ok() {
            Seq::<u8>::empty()
        } else {
            self.record()
        }
        &&& next.failing_read() == self.failing_read()
        &&& next.failing_write() == self.failing_write()
        &&& !next.failing_clear()
    }

    fn read(&mut self, destination: &mut [u8]) -> (r: Result<usize, MemoryStorageError>)
        ensures
            final(self).record() == old(self).record(),
            !final(self).failing_read(),
            final(self).failing_write() == old(self).failing_write(),
            final(self).failing_clear() == old(self).failing_clear(),
            final(destination)@.len() == old(destination)@.len(),
            if old(self).failing_read() {
                r == Err::<usize, MemoryStorageError>(MemoryStorageError::Read)
            } else {
                &&& r matches Ok(n)
                &&& n == if old(self).record().len() < old(destination)@.len() {
                    old(self).record().len()
                } else {
                    old(destination)@.len() as nat
                }
                &&& final(destination)@.subrange(0, n as int) == old(self).record().subrange(0, n as int)
            },
    {
        self.read_record(destination)
    }

    fn write(&mut self, data: &[u8]) -> (r: Result<(), MemoryStorageError>)
        ensures
            final(self).failing_read() == old(self).failing_read(),
            !final(self).failing_write(),
            final(self).failing_clear() == old(self).failing_clear(),
            if old(self).failing_write() || data@.len() > N {
                r == Err::<(), MemoryStorageError>(MemoryStorageError::Write) && final(self).record()
                    == old(self).record()
            } else {
                r is Ok && final(self).record() == data@
            },
    {
        self.write_record(data)
    }

    fn clear(&mut self) -> (r: Result<(), MemoryStorageError>)
        ensures
            final(self).failing_read() == old(self).failing_read(),
            final(self).failing_write() == old(self).failing_write(),
            !final(self).failing_clear(),
            if old(self).failing_clear() {
                r == Err::<(), MemoryStorageError>(MemoryStorageError::Clear) && final(self).record()
                    == old(self).record()
            } else {
                r is Ok && final(self).record() == Seq::<u8>::empty()
            },
    {
        self.clear_record()
    }
}

/// An in-memory area gives back what was written: once `write_record`
/// stored `data`, `read_record` into a buffer of at least that size returns
/// exactly `data`.
pub proof fn law_read_returns_written<const N: usize>(
    storage: MemoryConfigStorage<N>,
    data: Seq<u8>,
    destination_len: nat,
)
    requires
        storage.record() == data,
        data.len() <= destination_len,
    ensures
        ({
            let n = if storage.record().len() < destination_len {
                storage.record().len()
            } else {
                destination_len
            };
            n == data.len() && storage.record().subrange(0, n as int) == data
        }),
{
    assert(data.subrange(0, data.len() as int) =~= data);
}

} // verus!
