//! Reading fragments.
//!
//! Three calls are made at once: whether the address is there, for the metadata, and for the
//! payload. The answers come in any order, and the result does not depend on it.

use bytes::Bytes;
use crate::error::StoreError;
use crate::immutable::lookup::{probe_for, probe_of, ExistRequest};
use crate::immutable::metadata::{
    load_validated, metadata_loaded, metadata_with_load_validation, size_validated, MetadataRow,
};
use crate::immutable::payload::{
    hash_to_hex, object_error, object_failure, object_key, payload_in, read_payload,
    ObjectContents, ObjectFault,
};
use crate::immutable::statements::{ImmutableStatement, PgImmutableStore, StoreRules};
use crate::outside::bytes_contents;
use crate::sql::Fault;
use crate::types::{Address, ContentHash, Fragment, Partition, StoreMatch};
use vstd::prelude::*;

verus! {

/// A fragment and its payload, in terms of the bytes of the payload.
pub type FragmentView = (Fragment, Seq<u8>);

/// The result of reading a fragment, in terms of the bytes of the payload.
pub open spec fn fragment_view(result: Result<(Fragment, Bytes), StoreError>) -> Result<
    FragmentView,
    StoreError,
> {
    match result {
        Ok(loaded) => Ok((loaded.0, bytes_contents(loaded.1))),
        Err(e) => Err(e),
    }
}

/// The answer about an object, in terms of its bytes.
pub open spec fn object_reply_view(reply: Result<ObjectContents, ObjectFault>) -> Result<
    Seq<u8>,
    ObjectFault,
> {
    match reply {
        Ok(contents) => Ok(contents@),
        Err(fault) => Err(fault),
    }
}

// ---------------------------------------------------------------------------
// Loading by hash
// ---------------------------------------------------------------------------

/// A fragment that is being loaded.
#[derive(Debug)]
pub struct Load {
    rules: StoreRules,
    hash: ContentHash,
    metadata: Option<Result<Fragment, StoreError>>,
    object: Option<Result<ObjectContents, ObjectFault>>,
}

/// A fragment that is being loaded: the answers that have come in.
pub struct LoadView {
    pub rules: StoreRules,
    pub hash: ContentHash,
    pub metadata: Option<Result<Fragment, StoreError>>,
    pub object: Option<Result<Seq<u8>, ObjectFault>>,
}

impl View for Load {
    type V = LoadView;

    closed spec fn view(&self) -> LoadView {
        LoadView {
            rules: self.rules,
            hash: self.hash,
            metadata: self.metadata,
            object: match self.object {
                Some(reply) => Some(object_reply_view(reply)),
                None => None,
            },
        }
    }
}

/// How far the loading of a fragment has come.
#[derive(Debug)]
pub enum LoadStep {
    /// More answers are needed.
    Wait(Load),
    /// The fragment is loaded, or cannot be.
    Finish(Result<(Fragment, Bytes), StoreError>),
}

/// How far the loading of a fragment has come.
pub enum LoadStepView {
    Wait(LoadView),
    Finish(Result<FragmentView, StoreError>),
}

impl View for LoadStep {
    type V = LoadStepView;

    open spec fn view(&self) -> LoadStepView {
        match *self {
            LoadStep::Wait(load) => LoadStepView::Wait(load@),
            LoadStep::Finish(result) => LoadStepView::Finish(fragment_view(result)),
        }
    }
}

/// The fragment, given its metadata and the contents of the object.
pub open spec fn fragment_loaded(
    rules: StoreRules,
    hash: ContentHash,
    fragment: Fragment,
    object: Result<Seq<u8>, ObjectFault>,
) -> Result<FragmentView, StoreError> {
    match object {
        Ok(contents) => match payload_in(rules.force_write, contents, hash, fragment) {
            Ok(payload) => Ok((fragment, payload)),
            Err(e) => Err(e),
        },
        Err(fault) => Err(object_error(hash, fault)),
    }
}

impl LoadView {
    /// What the answers that have come in amount to: an error in the metadata settles the
    /// matter, an answer about the object does not before the metadata is known.
    pub open spec fn settled(self) -> LoadStepView {
        match self.metadata {
            None => LoadStepView::Wait(self),
            Some(Err(e)) => LoadStepView::Finish(Err(e)),
            Some(Ok(fragment)) => match self.object {
                None => LoadStepView::Wait(self),
                Some(object) => LoadStepView::Finish(
                    fragment_loaded(self.rules, self.hash, fragment, object),
                ),
            },
        }
    }

    /// The metadata as it counts for loading.
    pub open spec fn metadata_from(
        self,
        reply: Result<Option<MetadataRow>, Fault>,
        verdict: Result<(), String>,
    ) -> Result<Fragment, StoreError> {
        load_validated(
            self.rules.flags,
            self.hash,
            size_validated(metadata_loaded(self.hash, reply), verdict),
        )
    }

    /// The metadata has come in.
    pub open spec fn with_metadata(
        self,
        reply: Result<Option<MetadataRow>, Fault>,
        verdict: Result<(), String>,
    ) -> LoadStepView {
        (LoadView { metadata: Some(self.metadata_from(reply, verdict)), ..self }).settled()
    }

    /// The object has come in.
    pub open spec fn with_object(self, reply: Result<Seq<u8>, ObjectFault>) -> LoadStepView {
        (LoadView { object: Some(reply), ..self }).settled()
    }
}

impl Load {
    fn start(rules: StoreRules, hash: ContentHash) -> (load: Self)
        ensures
            load@ == (LoadView { rules, hash, metadata: None, object: None }),
    {
        Load { rules, hash, metadata: None, object: None }
    }

    fn settle(self) -> (step: LoadStep)
        ensures
            step@ == self@.settled(),
    {
        match self.metadata {
            None => LoadStep::Wait(self),
            Some(Err(e)) => LoadStep::Finish(Err(e)),
            Some(Ok(fragment)) => match self.object {
                None => LoadStep::Wait(
                    Load {
                        rules: self.rules,
                        hash: self.hash,
                        metadata: Some(Ok(fragment)),
                        object: None,
                    },
                ),
                Some(Ok(contents)) => {
                    match read_payload(self.rules, contents, self.hash, fragment) {
                        Ok(payload) => LoadStep::Finish(Ok((fragment, payload))),
                        Err(e) => LoadStep::Finish(Err(e)),
                    }
                },
                Some(Err(fault)) => LoadStep::Finish(Err(object_failure(self.hash, fault))),
            },
        }
    }

    /// The metadata has come in. `verdict` is what the host says of the sizes in the row.
    pub fn metadata(
        self,
        reply: Result<Option<MetadataRow>, Fault>,
        verdict: Result<(), String>,
    ) -> (step: LoadStep)
        ensures
            step@ == self@.with_metadata(reply, verdict),
    {
        let metadata = metadata_with_load_validation(self.rules.flags, self.hash, reply, verdict);
        let load = Load {
            rules: self.rules,
            hash: self.hash,
            metadata: Some(metadata),
            object: self.object,
        };
        load.settle()
    }

    /// The object has come in.
    pub fn object(self, reply: Result<ObjectContents, ObjectFault>) -> (step: LoadStep)
        ensures
            step@ == self@.with_object(object_reply_view(reply)),
    {
        let load = Load {
            rules: self.rules,
            hash: self.hash,
            metadata: self.metadata,
            object: Some(reply),
        };
        load.settle()
    }
}

// ---------------------------------------------------------------------------
// Reading at an address
// ---------------------------------------------------------------------------

/// A fragment that is being read, while it is not known whether the address is there.
#[derive(Debug)]
pub struct Get {
    existence: ExistRequest,
    load: LoadStep,
}

/// A fragment that is being read, while it is not known whether the address is there.
pub struct GetView {
    pub existence: ExistRequest,
    pub load: LoadStepView,
}

impl View for Get {
    type V = GetView;

    closed spec fn view(&self) -> GetView {
        GetView { existence: self.existence, load: self.load@ }
    }
}

/// A fragment that was read and waits for the host's verdict on its payload.
#[derive(Debug)]
pub struct GetCheck {
    fragment: Fragment,
    payload: Bytes,
}

impl View for GetCheck {
    type V = FragmentView;

    closed spec fn view(&self) -> FragmentView {
        (self.fragment, bytes_contents(self.payload))
    }
}

/// What is to be done next about the reading of a fragment.
#[derive(Debug)]
pub enum GetStep {
    /// Wait for more answers; whether the address is there is still open.
    Wait(Get),
    /// Wait for more answers; the address is there.
    Loading(Load),
    /// Pass a verdict on the payload.
    Check(GetCheck),
    /// The reading is done.
    Finish(Result<(Fragment, Bytes), StoreError>),
}

/// What is to be done next about the reading of a fragment.
pub enum GetStepView {
    Wait(GetView),
    Loading(LoadView),
    Check(FragmentView),
    Finish(Result<FragmentView, StoreError>),
}

impl View for GetStep {
    type V = GetStepView;

    open spec fn view(&self) -> GetStepView {
        match *self {
            GetStep::Wait(get) => GetStepView::Wait(get@),
            GetStep::Loading(load) => GetStepView::Loading(load@),
            GetStep::Check(check) => GetStepView::Check(check@),
            GetStep::Finish(result) => GetStepView::Finish(fragment_view(result)),
        }
    }
}

impl LoadStepView {
    /// What is to be done once the address is known to be there.
    pub open spec fn confirmed(self) -> GetStepView {
        match self {
            LoadStepView::Wait(load) => GetStepView::Loading(load),
            LoadStepView::Finish(Ok(loaded)) => GetStepView::Check(loaded),
            LoadStepView::Finish(Err(e)) => GetStepView::Finish(Err(e)),
        }
    }

    /// The metadata has come in; once the loading is over it is of no account.
    pub open spec fn with_metadata(
        self,
        reply: Result<Option<MetadataRow>, Fault>,
        verdict: Result<(), String>,
    ) -> LoadStepView {
        match self {
            LoadStepView::Wait(load) => load.with_metadata(reply, verdict),
            LoadStepView::Finish(_) => self,
        }
    }

    /// The object has come in; once the loading is over it is of no account.
    pub open spec fn with_object(self, reply: Result<Seq<u8>, ObjectFault>) -> LoadStepView {
        match self {
            LoadStepView::Wait(load) => load.with_object(reply),
            LoadStepView::Finish(_) => self,
        }
    }
}

impl LoadStep {
    /// What is to be done once the address is known to be there.
    pub fn confirm(self) -> (step: GetStep)
        ensures
            step@ == self@.confirmed(),
    {
        match self {
            LoadStep::Wait(load) => GetStep::Loading(load),
            LoadStep::Finish(Ok(loaded)) => GetStep::Check(
                GetCheck { fragment: loaded.0, payload: loaded.1 },
            ),
            LoadStep::Finish(Err(e)) => GetStep::Finish(Err(e)),
        }
    }
}

impl GetView {
    /// The answer whether the address is there. An error, or no for an answer, settles the
    /// matter, whatever else has come in.
    pub open spec fn with_existence(self, reply: Result<bool, Fault>) -> GetStepView {
        match self.existence.answered(reply) {
            Ok(true) => self.load.confirmed(),
            Ok(false) => GetStepView::Finish(
                Err(StoreError::AddressNotFound { address: self.existence.address }),
            ),
            Err(e) => GetStepView::Finish(Err(e)),
        }
    }

    /// The metadata has come in.
    pub open spec fn with_metadata(
        self,
        reply: Result<Option<MetadataRow>, Fault>,
        verdict: Result<(), String>,
    ) -> GetStepView {
        GetStepView::Wait(GetView { load: self.load.with_metadata(reply, verdict), ..self })
    }

    /// The object has come in.
    pub open spec fn with_object(self, reply: Result<Seq<u8>, ObjectFault>) -> GetStepView {
        GetStepView::Wait(GetView { load: self.load.with_object(reply), ..self })
    }
}

impl Get {
    /// The statement that asks whether the address is there.
    pub fn existence_statement(&self) -> (statement: ImmutableStatement)
        ensures
            statement == self@.existence.probe.question(
                self@.existence.repository,
                self@.existence.address,
            ),
    {
        self.existence.statement()
    }

    /// The statement that asks for the metadata.
    pub fn metadata_statement(&self) -> (statement: ImmutableStatement)
        ensures
            statement == (ImmutableStatement::LoadMetadata { hash: self@.existence.address.hash }),
    {
        ImmutableStatement::LoadMetadata { hash: self.existence.address.hash }
    }

    /// The key of the object to read.
    pub fn key(&self) -> (key: String)
        ensures
            key@ == object_key(self@.existence.address.hash),
    {
        hash_to_hex(self.existence.address.hash)
    }

    /// The answer whether the address is there has come in.
    pub fn existence(self, reply: Result<bool, Fault>) -> (step: GetStep)
        ensures
            step@ == self@.with_existence(reply),
    {
        match self.existence.is_there(reply) {
            Ok(found) => {
                if found {
                    self.load.confirm()
                } else {
                    GetStep::Finish(
                        Err(StoreError::AddressNotFound { address: self.existence.address }),
                    )
                }
            },
            Err(e) => GetStep::Finish(Err(e)),
        }
    }

    /// The metadata has come in. `verdict` is what the host says of the sizes in the row.
    pub fn metadata(
        self,
        reply: Result<Option<MetadataRow>, Fault>,
        verdict: Result<(), String>,
    ) -> (step: GetStep)
        ensures
            step@ == self@.with_metadata(reply, verdict),
    {
        let load = match self.load {
            LoadStep::Wait(load) => load.metadata(reply, verdict),
            LoadStep::Finish(result) => LoadStep::Finish(result),
        };
        GetStep::Wait(Get { existence: self.existence, load })
    }

    /// The object has come in.
    pub fn object(self, reply: Result<ObjectContents, ObjectFault>) -> (step: GetStep)
        ensures
            step@ == self@.with_object(object_reply_view(reply)),
    {
        let load = match self.load {
            LoadStep::Wait(load) => load.object(reply),
            LoadStep::Finish(result) => LoadStep::Finish(result),
        };
        GetStep::Wait(Get { existence: self.existence, load })
    }
}

/// The fragment, if the host has no objection to its payload.
pub open spec fn payload_checked(loaded: FragmentView, verdict: Result<(), String>) -> Result<
    FragmentView,
    StoreError,
> {
    match verdict {
        Ok(()) => Ok(loaded),
        Err(cause) => Err(StoreError::Invalid { cause }),
    }
}

impl GetCheck {
    /// The fragment to pass a verdict on.
    pub fn fragment(&self) -> (fragment: Fragment)
        ensures
            fragment == self@.0,
    {
        self.fragment
    }

    /// The number of bytes of its payload.
    pub fn payload_len(&self) -> (len: usize)
        ensures
            len == self@.1.len(),
    {
        self.payload.len()
    }

    /// The result of the reading, given the host's verdict.
    pub fn reply(self, verdict: Result<(), String>) -> (result: Result<
        (Fragment, Bytes),
        StoreError,
    >)
        ensures
            fragment_view(result) == payload_checked(self@, verdict),
    {
        match verdict {
            Ok(()) => Ok((self.fragment, self.payload)),
            Err(cause) => Err(StoreError::Invalid { cause }),
        }
    }
}

/// The reading of a fragment, before any answer has come in.
pub open spec fn get_started(
    rules: StoreRules,
    partition: Partition,
    address: Address,
    match_required: StoreMatch,
) -> GetStepView {
    match probe_for(match_required) {
        Some(probe) => GetStepView::Wait(
            GetView {
                existence: ExistRequest { repository: partition, address, probe },
                load: LoadStepView::Wait(
                    LoadView { rules, hash: address.hash, metadata: None, object: None },
                ),
            },
        ),
        None => GetStepView::Finish(Err(StoreError::AddressNotFound { address })),
    }
}

impl PgImmutableStore {
    /// Reads the fragment at an address.
    pub fn get(&self, partition: Partition, address: Address, match_required: StoreMatch) -> (step:
        GetStep)
        ensures
            step@ == get_started(self.spec_rules(), partition, address, match_required),
    {
        match probe_of(match_required) {
            Some(probe) => GetStep::Wait(
                Get {
                    existence: ExistRequest { repository: partition, address, probe },
                    load: LoadStep::Wait(Load::start(self.rules(), address.hash)),
                },
            ),
            None => GetStep::Finish(Err(StoreError::AddressNotFound { address })),
        }
    }
}

} // verus!
