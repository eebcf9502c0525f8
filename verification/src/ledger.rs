//! The keyed record store that the operations act on.
//!
//! A ledger holds the records of one program, each under its address, and a
//! clock that never runs backwards. Only the operations of this crate write
//! to it.

use crate::address::{lemma_address_by_bytes, Address};
use crate::permission::GrantRef;
use crate::records::{
    byte_len, ErrorCode, UserAuthorityRecord, UserDataRecord, UserDataRecordView,
    MAX_METADATA_URI_LEN,
};
use vstd::prelude::*;

verus! {

/// What lies at an address: a data record or a grant.
#[derive(Debug)]
pub enum Record {
    Data(UserDataRecord),
    Authority(UserAuthorityRecord),
}

/// The view of a [`Record`].
pub enum RecordView {
    Data(UserDataRecordView),
    Authority(UserAuthorityRecord),
}

impl View for Record {
    type V = RecordView;

    open spec fn view(&self) -> RecordView {
        match self {
            Record::Data(data) => RecordView::Data(data@),
            Record::Authority(grant) => RecordView::Authority(*grant),
        }
    }
}

/// Whether a record respects the bound on its URI and was written no later
/// than `clock`.
pub open spec fn record_ok(record: RecordView, clock: i64) -> bool {
    match record {
        RecordView::Data(data) => byte_len(data.metadata_uri) <= MAX_METADATA_URI_LEN
            && data.last_updated <= clock,
        RecordView::Authority(grant) => grant.last_authorized <= clock,
    }
}

/// A ledger as a map from the bytes of an address to the record there.
#[verifier::ext_equal]
pub struct LedgerView {
    pub program_id: Address,
    pub clock: i64,
    pub records: Map<Seq<u8>, RecordView>,
}

impl LedgerView {
    /// Whether anything is stored at `key`.
    pub open spec fn holds(self, key: Seq<u8>) -> bool {
        self.records.dom().contains(key)
    }

    /// Whether a data record is stored at `key`.
    pub open spec fn holds_data(self, key: Seq<u8>) -> bool {
        self.holds(key) && self.records[key] is Data
    }

    /// Whether a grant is stored at `key`.
    pub open spec fn holds_grant(self, key: Seq<u8>) -> bool {
        self.holds(key) && self.records[key] is Authority
    }

    /// The account at `address` as a caller would present it.
    pub open spec fn presented(self, address: Address) -> GrantRef {
        GrantRef { key: address, data_is_empty: !self.holds(address@) }
    }

    /// Every URI is within its bound, and no record is dated after the
    /// clock.
    pub open spec fn well_formed(self) -> bool {
        forall|key: Seq<u8>| #[trigger] self.holds(key) ==> record_ok(self.records[key], self.clock)
    }

    /// This ledger with `record` stored at `key`.
    pub open spec fn with(self, key: Seq<u8>, record: RecordView) -> LedgerView {
        LedgerView { records: self.records.insert(key, record), ..self }
    }

    /// This ledger with nothing stored at `key`.
    pub open spec fn without(self, key: Seq<u8>) -> LedgerView {
        LedgerView { records: self.records.remove(key), ..self }
    }
}

/// A record and the address it lies at.
#[derive(Debug)]
struct Slot {
    address: Address,
    record: Record,
}

/// The bytes of the address of the `i`-th slot.
spec fn key_at(slots: Seq<Slot>, i: int) -> Seq<u8> {
    slots[i].address@
}

/// Whether the `i`-th slot is the one for `key`.
spec fn holds_at(slots: Seq<Slot>, key: Seq<u8>, i: int) -> bool {
    0 <= i < slots.len() && key_at(slots, i) == key
}

/// No two slots have the same address.
spec fn distinct(slots: Seq<Slot>) -> bool {
    forall|i: int, j: int|
        0 <= i < slots.len() && 0 <= j < slots.len() && i != j ==> #[trigger] key_at(slots, i)
            != #[trigger] key_at(slots, j)
}

/// Every slot holds a record that is within its bounds at the time `clock`.
spec fn all_ok(slots: Seq<Slot>, clock: i64) -> bool {
    forall|i: int| 0 <= i < slots.len() ==> record_ok(#[trigger] slots[i].record@, clock)
}

/// The slots as a map from address to record.
spec fn records_of(slots: Seq<Slot>) -> Map<Seq<u8>, RecordView> {
    Map::new(
        |key: Seq<u8>| exists|i: int| holds_at(slots, key, i),
        |key: Seq<u8>| slots[choose|i: int| holds_at(slots, key, i)].record@,
    )
}

/// Among distinct slots, the record under a key is that of the slot for it.
proof fn lemma_record_at(slots: Seq<Slot>, key: Seq<u8>, i: int)
    requires
        distinct(slots),
        holds_at(slots, key, i),
    ensures
        records_of(slots).dom().contains(key),
        records_of(slots)[key] == slots[i].record@,
{
    let c = choose|c: int| holds_at(slots, key, c);
    assert(key_at(slots, c) == key_at(slots, i));
}

/// A slot appended for an address that no slot has yet is an insertion.
proof fn lemma_push(slots: Seq<Slot>, slot: Slot)
    requires
        distinct(slots),
        forall|i: int| !holds_at(slots, slot.address@, i),
    ensures
        distinct(slots.push(slot)),
        records_of(slots.push(slot)) == records_of(slots).insert(slot.address@, slot.record@),
{
    let grown = slots.push(slot);
    let n = slots.len() as int;
    assert forall|i: int, j: int|
        0 <= i < grown.len() && 0 <= j < grown.len() && i != j implies #[trigger] key_at(grown, i)
        != #[trigger] key_at(grown, j) by {
        if i < n {
            assert(key_at(grown, i) == key_at(slots, i));
            assert(!holds_at(slots, slot.address@, i));
        }
        if j < n {
            assert(key_at(grown, j) == key_at(slots, j));
            assert(!holds_at(slots, slot.address@, j));
        }
    }
    let target = records_of(slots).insert(slot.address@, slot.record@);
    assert forall|key: Seq<u8>|
        records_of(grown).dom().contains(key) == target.dom().contains(key) by {
        if records_of(grown).dom().contains(key) {
            let i = choose|i: int| holds_at(grown, key, i);
            if i < n {
                assert(holds_at(slots, key, i));
            }
        }
        if target.dom().contains(key) {
            if key == slot.address@ {
                assert(holds_at(grown, key, n));
            } else {
                let i = choose|i: int| holds_at(slots, key, i);
                assert(holds_at(grown, key, i));
            }
        }
    }
    assert forall|key: Seq<u8>| records_of(grown).dom().contains(key) implies records_of(
        grown,
    )[key] == target[key] by {
        let i = choose|i: int| holds_at(grown, key, i);
        lemma_record_at(grown, key, i);
        if i < n {
            assert(holds_at(slots, key, i));
            lemma_record_at(slots, key, i);
            assert(!holds_at(slots, slot.address@, i));
        }
    }
    assert(records_of(grown) =~= target);
}

/// A slot replaced by one for the same address is an insertion at its key.
proof fn lemma_update(slots: Seq<Slot>, i: int, slot: Slot)
    requires
        distinct(slots),
        0 <= i < slots.len(),
        slot.address@ == key_at(slots, i),
    ensures
        distinct(slots.update(i, slot)),
        records_of(slots.update(i, slot)) == records_of(slots).insert(slot.address@, slot.record@),
{
    let changed = slots.update(i, slot);
    assert forall|a: int| 0 <= a < slots.len() implies key_at(changed, a) == key_at(slots, a) by {}
    assert forall|a: int, b: int|
        0 <= a < changed.len() && 0 <= b < changed.len() && a != b implies #[trigger] key_at(
            changed,
            a,
        ) != #[trigger] key_at(changed, b) by {
        assert(key_at(changed, a) == key_at(slots, a));
        assert(key_at(changed, b) == key_at(slots, b));
    }
    let target = records_of(slots).insert(slot.address@, slot.record@);
    assert forall|key: Seq<u8>|
        records_of(changed).dom().contains(key) == target.dom().contains(key) by {
        if records_of(changed).dom().contains(key) {
            let a = choose|a: int| holds_at(changed, key, a);
            assert(holds_at(slots, key, a));
        }
        if target.dom().contains(key) {
            if key == slot.address@ {
                assert(holds_at(changed, key, i));
            } else {
                let a = choose|a: int| holds_at(slots, key, a);
                assert(holds_at(changed, key, a));
            }
        }
    }
    assert forall|key: Seq<u8>| records_of(changed).dom().contains(key) implies records_of(
        changed,
    )[key] == target[key] by {
        let a = choose|a: int| holds_at(changed, key, a);
        lemma_record_at(changed, key, a);
        assert(holds_at(slots, key, a));
        lemma_record_at(slots, key, a);
    }
    assert(records_of(changed) =~= target);
}

/// A slot taken out is a removal of its key.
proof fn lemma_remove(slots: Seq<Slot>, i: int)
    requires
        distinct(slots),
        0 <= i < slots.len(),
    ensures
        distinct(slots.remove(i)),
        records_of(slots.remove(i)) == records_of(slots).remove(key_at(slots, i)),
{
    let shrunk = slots.remove(i);
    let gone = key_at(slots, i);
    assert forall|a: int| 0 <= a < shrunk.len() implies key_at(shrunk, a) == key_at(
        slots,
        if a < i { a } else { a + 1 },
    ) by {}
    assert forall|a: int, b: int|
        0 <= a < shrunk.len() && 0 <= b < shrunk.len() && a != b implies #[trigger] key_at(
            shrunk,
            a,
        ) != #[trigger] key_at(shrunk, b) by {
        let before = if a < i { a } else { a + 1 };
        assert(key_at(shrunk, a) == key_at(slots, before));
        let before = if b < i { b } else { b + 1 };
        assert(key_at(shrunk, b) == key_at(slots, before));
    }
    let target = records_of(slots).remove(gone);
    assert forall|key: Seq<u8>|
        records_of(shrunk).dom().contains(key) == target.dom().contains(key) by {
        if records_of(shrunk).dom().contains(key) {
            let a = choose|a: int| holds_at(shrunk, key, a);
            let before = if a < i { a } else { a + 1 };
            assert(key_at(shrunk, a) == key_at(slots, before));
            assert(holds_at(slots, key, before));
            assert(key_at(slots, before) != key_at(slots, i));
        }
        if target.dom().contains(key) {
            let b = choose|b: int| holds_at(slots, key, b);
            let after = if b < i { b } else { b - 1 };
            assert(key_at(shrunk, after) == key_at(
                slots,
                if after < i { after } else { after + 1 },
            ));
            assert(holds_at(shrunk, key, after));
        }
    }
    assert forall|key: Seq<u8>| records_of(shrunk).dom().contains(key) implies records_of(
        shrunk,
    )[key] == target[key] by {
        let a = choose|a: int| holds_at(shrunk, key, a);
        let before = if a < i { a } else { a + 1 };
        lemma_record_at(shrunk, key, a);
        assert(key_at(shrunk, a) == key_at(slots, before));
        assert(holds_at(slots, key, before));
        lemma_record_at(slots, key, before);
    }
    assert(records_of(shrunk) =~= target);
}

/// Distinct slots with records within their bounds make a well-formed
/// ledger.
proof fn lemma_well_formed(slots: Seq<Slot>, view: LedgerView)
    requires
        distinct(slots),
        all_ok(slots, view.clock),
        view.records == records_of(slots),
    ensures
        view.well_formed(),
{
    assert forall|key: Seq<u8>| #[trigger] view.holds(key) implies record_ok(
        view.records[key],
        view.clock,
    ) by {
        let i = choose|i: int| holds_at(slots, key, i);
        lemma_record_at(slots, key, i);
    }
}

/// The records of one program and its clock. Every ledger is well formed:
/// `program_id` and `now` say so of the ledger they read, and each operation
/// of the ledger it leaves behind.
#[derive(Debug)]
pub struct Ledger {
    program_id: Address,
    clock: i64,
    slots: Vec<Slot>,
}

impl View for Ledger {
    type V = LedgerView;

    closed spec fn view(&self) -> LedgerView {
        LedgerView {
            program_id: self.program_id,
            clock: self.clock,
            records: records_of(self.slots@),
        }
    }
}

impl Ledger {
    /// What every ledger keeps: one slot per address, and every record within
    /// its bounds.
    #[verifier::type_invariant]
    spec fn inv(self) -> bool {
        distinct(self.slots@) && all_ok(self.slots@, self.clock)
    }

    /// An empty ledger for the program `program_id`, its clock at `now`.
    pub fn new(program_id: Address, now: i64) -> (ledger: Ledger)
        ensures
            ledger@ == (LedgerView { program_id, clock: now, records: Map::empty() }),
            ledger@.well_formed(),
    {
        let ledger = Ledger { program_id, clock: now, slots: Vec::new() };
        assert(ledger@.records =~= Map::empty());
        ledger
    }

    /// The program whose records these are.
    pub fn program_id(&self) -> (id: Address)
        ensures
            id == self@.program_id,
            self@.well_formed(),
    {
        proof {
            use_type_invariant(self);
            lemma_well_formed(self.slots@, self@);
        }
        self.program_id
    }

    /// The current time.
    pub fn now(&self) -> (now: i64)
        ensures
            now == self@.clock,
            self@.well_formed(),
    {
        proof {
            use_type_invariant(self);
            lemma_well_formed(self.slots@, self@);
        }
        self.clock
    }

    /// Moves the clock forward to `now`. A time that is not later than the
    /// clock leaves it where it is.
    pub fn advance_clock(&mut self, now: i64)
        ensures
            final(self)@ == (LedgerView {
                clock: if now > old(self)@.clock { now } else { old(self)@.clock },
                ..old(self)@
            }),
            final(self)@.well_formed(),
    {
        proof {
            use_type_invariant(&*self);
        }
        if now > self.clock {
            self.clock = now;
        }
        proof {
            lemma_well_formed(self.slots@, self@);
        }
    }

    /// The index of the slot for `address`, if there is one.
    fn position(&self, address: &Address) -> (at: Option<usize>)
        ensures
            match at {
                Some(i) => holds_at(self.slots@, address@, i as int),
                None => forall|i: int| !holds_at(self.slots@, address@, i),
            },
    {
        let mut i: usize = 0;
        while i < self.slots.len()
            invariant
                i <= self.slots@.len(),
                forall|j: int| 0 <= j < i ==> !holds_at(self.slots@, address@, j),
            decreases self.slots@.len() - i,
        {
            proof {
                lemma_address_by_bytes(self.slots@[i as int].address, *address);
            }
            if self.slots[i].address == *address {
                return Some(i);
            }
            i += 1;
        }
        None
    }

    /// Whether anything is stored at `address`.
    pub fn holds(&self, address: &Address) -> (held: bool)
        ensures
            held == self@.holds(address@),
    {
        proof {
            use_type_invariant(self);
        }
        match self.position(address) {
            Some(i) => {
                proof {
                    lemma_record_at(self.slots@, address@, i as int);
                }
                true
            },
            None => false,
        }
    }

    /// The account at `address` as a caller would present it: the address,
    /// and whether anything is stored there.
    pub fn presented(&self, address: &Address) -> (grant: GrantRef)
        ensures
            grant == self@.presented(*address),
    {
        GrantRef { key: *address, data_is_empty: !self.holds(address) }
    }

    /// The data record at `address`, if one lies there.
    pub fn data_record(&self, address: &Address) -> (found: Option<&UserDataRecord>)
        ensures
            match found {
                Some(record) => self@.holds(address@) && self@.records[address@]
                    == RecordView::Data(record@) && record_ok(
                    RecordView::Data(record@),
                    self@.clock,
                ),
                None => !self@.holds_data(address@),
            },
    {
        proof {
            use_type_invariant(self);
        }
        match self.position(address) {
            Some(i) => {
                proof {
                    lemma_record_at(self.slots@, address@, i as int);
                }
                match &self.slots[i].record {
                    Record::Data(record) => Some(record),
                    Record::Authority(_) => None,
                }
            },
            None => None,
        }
    }

    /// The grant at `address`, if one lies there.
    pub fn authority_record(&self, address: &Address) -> (found: Option<UserAuthorityRecord>)
        ensures
            match found {
                Some(grant) => self@.holds(address@) && self@.records[address@]
                    == RecordView::Authority(grant) && grant.last_authorized <= self@.clock,
                None => !self@.holds_grant(address@),
            },
    {
        proof {
            use_type_invariant(self);
        }
        match self.position(address) {
            Some(i) => {
                proof {
                    lemma_record_at(self.slots@, address@, i as int);
                }
                match &self.slots[i].record {
                    Record::Data(_) => None,
                    Record::Authority(grant) => Some(*grant),
                }
            },
            None => None,
        }
    }

    /// Stores `record` at `address` if nothing lies there yet.
    pub(crate) fn allocate(&mut self, address: Address, record: Record) -> (result: Result<
        (),
        ErrorCode,
    >)
        requires
            record_ok(record@, old(self)@.clock),
        ensures
            final(self)@.well_formed(),
            match result {
                Ok(_) => !old(self)@.holds(address@) && final(self)@ == old(self)@.with(
                    address@,
                    record@,
                ),
                Err(code) => code == ErrorCode::AlreadyExists && old(self)@.holds(address@)
                    && final(self)@ == old(self)@,
            },
    {
        proof {
            use_type_invariant(&*self);
            lemma_well_formed(self.slots@, self@);
        }
        match self.position(&address) {
            Some(i) => {
                proof {
                    lemma_record_at(self.slots@, address@, i as int);
                }
                Err(ErrorCode::AlreadyExists)
            },
            None => {
                let slot = Slot { address, record };
                proof {
                    lemma_push(self.slots@, slot);
                }
                let mut slots: Vec<Slot> = Vec::new();
                std::mem::swap(&mut slots, &mut self.slots);
                slots.push(slot);
                self.slots = slots;
                proof {
                    lemma_well_formed(self.slots@, self@);
                }
                Ok(())
            },
        }
    }

    /// Replaces the data record at `address` by `record`.
    pub(crate) fn overwrite_data(&mut self, address: &Address, record: UserDataRecord) -> (result:
        Result<(), ErrorCode>)
        requires
            record_ok(RecordView::Data(record@), old(self)@.clock),
        ensures
            final(self)@.well_formed(),
            match result {
                Ok(_) => old(self)@.holds_data(address@) && final(self)@ == old(self)@.with(
                    address@,
                    RecordView::Data(record@),
                ),
                Err(code) => code == ErrorCode::NotFound && !old(self)@.holds_data(address@)
                    && final(self)@ == old(self)@,
            },
    {
        proof {
            use_type_invariant(&*self);
            lemma_well_formed(self.slots@, self@);
        }
        match self.position(address) {
            Some(i) => {
                proof {
                    lemma_record_at(self.slots@, address@, i as int);
                }
                match &self.slots[i].record {
                    Record::Authority(_) => Err(ErrorCode::NotFound),
                    Record::Data(_) => {
                        let slot = Slot { address: *address, record: Record::Data(record) };
                        proof {
                            lemma_update(self.slots@, i as int, slot);
                        }
                        let mut slots: Vec<Slot> = Vec::new();
                        std::mem::swap(&mut slots, &mut self.slots);
                        slots[i] = slot;
                        self.slots = slots;
                        proof {
                            lemma_well_formed(self.slots@, self@);
                        }
                        Ok(())
                    },
                }
            },
            None => Err(ErrorCode::NotFound),
        }
    }

    /// Removes the data record at `address`.
    pub(crate) fn close_data(&mut self, address: &Address) -> (result: Result<(), ErrorCode>)
        ensures
            final(self)@.well_formed(),
            match result {
                Ok(_) => old(self)@.holds_data(address@) && final(self)@ == old(self)@.without(
                    address@,
                ),
                Err(code) => code == ErrorCode::NotFound && !old(self)@.holds_data(address@)
                    && final(self)@ == old(self)@,
            },
    {
        proof {
            use_type_invariant(&*self);
            lemma_well_formed(self.slots@, self@);
        }
        match self.position(address) {
            Some(i) => {
                proof {
                    lemma_record_at(self.slots@, address@, i as int);
                }
                match &self.slots[i].record {
                    Record::Authority(_) => Err(ErrorCode::NotFound),
                    Record::Data(_) => {
                        self.remove_at(i);
                        Ok(())
                    },
                }
            },
            None => Err(ErrorCode::NotFound),
        }
    }

    /// Removes the grant at `address`.
    pub(crate) fn close_authority(&mut self, address: &Address) -> (result: Result<(), ErrorCode>)
        ensures
            final(self)@.well_formed(),
            match result {
                Ok(_) => old(self)@.holds_grant(address@) && final(self)@ == old(self)@.without(
                    address@,
                ),
                Err(code) => code == ErrorCode::NotFound && !old(self)@.holds_grant(address@)
                    && final(self)@ == old(self)@,
            },
    {
        proof {
            use_type_invariant(&*self);
            lemma_well_formed(self.slots@, self@);
        }
        match self.position(address) {
            Some(i) => {
                proof {
                    lemma_record_at(self.slots@, address@, i as int);
                }
                match &self.slots[i].record {
                    Record::Data(_) => Err(ErrorCode::NotFound),
                    Record::Authority(_) => {
                        self.remove_at(i);
                        Ok(())
                    },
                }
            },
            None => Err(ErrorCode::NotFound),
        }
    }

    /// Takes out the `i`-th slot.
    fn remove_at(&mut self, i: usize)
        requires
            i < old(self).slots@.len(),
        ensures
            final(self)@ == old(self)@.without(key_at(old(self).slots@, i as int)),
            final(self)@.well_formed(),
    {
        proof {
            use_type_invariant(&*self);
            lemma_remove(self.slots@, i as int);
        }
        let mut slots: Vec<Slot> = Vec::new();
        std::mem::swap(&mut slots, &mut self.slots);
        let _ = slots.remove(i);
        self.slots = slots;
        proof {
            lemma_well_formed(self.slots@, self@);
        }
    }
}

} // verus!
