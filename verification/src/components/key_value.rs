//! The key-value flattening convention.
//!
//! Redis commonly presents a set of key-value pairs as one flat array that
//! alternates keys and values, as `HGETALL` does. A [`KeyValuePairs`]
//! holds such pairs; it turns into an array of twice as many elements, and
//! is read back from any even-length array, rejecting odd lengths.

use vstd::prelude::*;

use crate::value::{models_of, Value, ValueModel};

verus! {

broadcast use vstd::std_specs::vec::group_vec_axioms;

/// An ordered run of key-value pairs, kept flattened: the element at any
/// even index is a key and the element after it is that key's value.
#[derive(Debug)]
pub struct KeyValuePairs {
    /// The alternating keys and values; always of even length.
    entries: Vec<Value>,
}

impl View for KeyValuePairs {
    type V = Seq<ValueModel>;

    closed spec fn view(&self) -> Seq<ValueModel> {
        models_of(self.entries@)
    }
}

impl KeyValuePairs {
    /// Whether the flattened run is well formed: keys and values pair up.
    pub open spec fn well_formed(&self) -> bool {
        self@.len() % 2 == 0
    }

    /// No pairs at all.
    pub fn new() -> (r: Self)
        ensures
            r@ == Seq::<ValueModel>::empty(),
            r.well_formed(),
    {
        proof {
            assert(models_of(Seq::<Value>::empty()) =~= Seq::<ValueModel>::empty());
        }
        KeyValuePairs { entries: Vec::new() }
    }

    /// How many pairs are held.
    pub fn len(&self) -> (r: usize)
        ensures
            r == self@.len() / 2,
    {
        proof {
            crate::value::lemma_models_of_len(self.entries@);
        }
        self.entries.len() / 2
    }

    /// Append one pair: the key, then its value.
    pub fn insert(&mut self, key: Value, value: Value)
        requires
            old(self).well_formed(),
        ensures
            final(self)@ == old(self)@ + seq![key@, value@],
            final(self).well_formed(),
    {
        let ghost before = self.entries@;
        let ghost k = key@;
        let ghost v = value@;
        self.entries.push(key);
        proof {
            crate::de::lemma_models_of_push(before, self.entries@[before.len() as int]);
        }
        let ghost mid = self.entries@;
        self.entries.push(value);
        proof {
            crate::de::lemma_models_of_push(mid, self.entries@[mid.len() as int]);
            assert((models_of(before) + seq![k]) + seq![v] =~= models_of(before) + seq![k, v]);
        }
    }

    /// Turn the pairs into the flat array the wire carries: twice as many
    /// elements, each key followed by its value.
    pub fn into_value(self) -> (r: Value)
        ensures
            r@ == ValueModel::List(self@),
    {
        Value::Array(self.entries)
    }

    /// Read pairs back from a decoded value: it must be an array of even
    /// length, whose elements alternate keys and values.
    pub fn from_value(v: Value) -> (r: Result<Self, crate::de::Error>)
        ensures
            match v@ {
                ValueModel::List(ms) => if ms.len() % 2 == 0 {
                    r matches Ok(kv) && kv@ == ms && kv.well_formed()
                } else {
                    r matches Err(e) && e@ == crate::de::ErrorModel::Custom
                },
                _ => r matches Err(e) && e@ == crate::de::ErrorModel::Custom,
            },
    {
        match v {
            Value::Array(entries) => {
                proof {
                    crate::value::lemma_models_of_len(entries@);
                }
                if entries.len() % 2 == 0 {
                    Ok(KeyValuePairs { entries })
                } else {
                    Err(crate::de::Error::Custom(
                        "key-value pairs need an array of even length".to_owned(),
                    ))
                }
            },
            _ => Err(crate::de::Error::Custom(
                "key-value pairs need an array".to_owned(),
            )),
        }
    }
}

/// Twice a pair count, as the flattened array length; fails when the
/// doubled count no longer fits a machine word.
pub fn double_len(len: usize) -> (r: Result<usize, crate::ser::Error>)
    ensures
        len * 2 <= usize::MAX ==> r == Ok::<usize, crate::ser::Error>((len * 2) as usize),
        len * 2 > usize::MAX ==> (r matches Err(e) && e is Custom),
{
    if len > usize::MAX / 2 {
        Err(crate::ser::Error::Custom("overflowed a usize".to_owned()))
    } else {
        Ok(len * 2)
    }
}

} // verus!
