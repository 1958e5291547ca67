//! The write transaction of the redb backend, bound to one named table.
use vstd::prelude::*;

use std::marker::PhantomData;

verus! {

#[verifier::external_type_specification]
#[verifier::external_body]
pub struct ExWriteTransaction(redb::WriteTransaction);

/// A write transaction of redb bound to one named table.
pub struct RedbBTreeTransaction<K, V> {
    tx: redb::WriteTransaction,
    name: String,
    _phantom_marker: PhantomData<(K, V)>,
}

impl<K, V> RedbBTreeTransaction<K, V> {
    pub closed spec fn name_spec(&self) -> Seq<char> {
        self.name@
    }

    /// The redb transaction this value holds.
    pub closed spec fn transaction_spec(&self) -> redb::WriteTransaction {
        self.tx
    }

    /// Binds the transaction `tx` to the table called `name`.
    pub fn new(tx: redb::WriteTransaction, name: String) -> (r: RedbBTreeTransaction<K, V>)
        ensures
            r.name_spec() == name@,
            r.transaction_spec() == tx,
    {
        RedbBTreeTransaction { tx, name, _phantom_marker: PhantomData }
    }

    /// The name of the table.
    pub fn name(&self) -> (r: &str)
        ensures
            r@ == self.name_spec(),
    {
        self.name.as_str()
    }

    /// The transaction itself.
    pub fn transaction(&self) -> (r: &redb::WriteTransaction)
        ensures
            *r == self.transaction_spec(),
    {
        &self.tx
    }

    /// Gives the transaction back, to commit or drop it.
    pub fn into_transaction(self) -> (r: redb::WriteTransaction)
        ensures
            r == self.transaction_spec(),
    {
        self.tx
    }
}

} // verus!
