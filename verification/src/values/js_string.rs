use vstd::prelude::*;
use vstd::string::{StrSliceExecFns, StringExecFns};

use crate::values::js_number::{float_of_int, num_from_u64, num_text, JSNumber};
use crate::values::value_variant::{str_append_model, JSValueVariant, ValueModel};

verus! {

/// A runtime string: owned text plus the cached `length` property, kept in
/// sync with the text by every mutation.
#[derive(Debug, PartialEq)]
pub struct JSString {
    pub str_value: String,
    pub length_bits: u64,
}

impl Clone for JSString {
    /// The clone equals the original.
    fn clone(&self) -> (r: JSString)
        ensures
            r == *self,
    {
        JSString { str_value: self.str_value.clone(), length_bits: self.length_bits }
    }
}

impl JSString {
    /// Strings are reference-semantic, never primitive.
    pub fn is_primitive(&self) -> (r: bool)
        ensures
            r == false,
    {
        false
    }

    /// The owned text.
    pub fn str_value(&self) -> (r: &String)
        ensures
            r@ == self.str_value@,
    {
        &self.str_value
    }

    /// The empty string, with its `length` property cached as the number 0.
    pub fn new() -> (r: JSString)
        ensures
            r.str_value@ == Seq::<char>::empty(),
            r.length_bits == float_of_int(0),
    {
        JSString { str_value: String::new(), length_bits: num_from_u64(0) }
    }

    /// A string over the given text, with its `length` property cached.
    pub fn from(str_value: String) -> (r: JSString)
        ensures
            r.str_value@ == str_value@,
            r.length_bits == float_of_int(str_value@.len() as u64),
    {
        let n = str_value.as_str().unicode_len();
        JSString { str_value, length_bits: num_from_u64(n as u64) }
    }

    /// Replaces the text and refreshes the cached `length` property.
    pub fn set_str_value(&mut self, str_addition: &String)
        ensures
            final(self).str_value@ == str_addition@,
            final(self).length_bits == float_of_int(str_addition@.len() as u64),
    {
        self.str_value = str_addition.clone();
        let n = self.str_value.as_str().unicode_len();
        self.length_bits = num_from_u64(n as u64);
    }

    /// Coerce-and-append: a number operand appends its decimal textual
    /// form, a string operand appends its text, anything else appends
    /// nothing; the cached `length` property is refreshed either way.
    pub fn addition_assignment(&mut self, value: &JSValueVariant)
        ensures
            final(self).str_value@ == str_append_model(old(self).str_value@, value@),
            final(self).length_bits == float_of_int(final(self).str_value@.len() as u64),
    {
        match value {
            JSValueVariant::JSNumber(n) => {
                let t = num_text(n.bits);
                self.str_value.append(t.as_str());
            },
            JSValueVariant::JSString(s) => {
                let t = s.str_value.clone();
                self.str_value.append(t.as_str());
            },
            _ => {},
        }
        let n = self.str_value.as_str().unicode_len();
        self.length_bits = num_from_u64(n as u64);
    }

    /// Subtraction assignment is a defined no-op on strings.
    pub fn decrement_assignment(&mut self, value: &JSValueVariant)
        ensures
            *final(self) == *old(self),
    {
        let _ = value;
    }

    /// Multiplication assignment is a defined no-op on strings.
    pub fn multiplication_assignment(&mut self, value: &JSValueVariant)
        ensures
            *final(self) == *old(self),
    {
        let _ = value;
    }

    /// Division assignment is a defined no-op on strings.
    pub fn division_assignment(&mut self, value: &JSValueVariant)
        ensures
            *final(self) == *old(self),
    {
        let _ = value;
    }

    /// The mutable counterpart of the property-bearing capability. The
    /// synthetic `length` property mirrors the text, so the only write it
    /// accepts is that mirror value itself: storing the number equal to
    /// the text's length (re)caches it and reports `true`; any other name,
    /// non-number value, or number differing from the text's length is
    /// refused and nothing changes — the cache invariant of the data
    /// model survives every call.
    pub fn set_property(&mut self, property_key: &String, value: &JSValueVariant) -> (r: bool)
        ensures
            final(self).str_value@ == old(self).str_value@,
            r == (property_key@ == "length"@ && (value@ matches ValueModel::Num(b) && b
                == float_of_int(old(self).str_value@.len() as u64))),
            r ==> final(self).length_bits == float_of_int(old(self).str_value@.len() as u64),
            !r ==> final(self).length_bits == old(self).length_bits,
    {
        let length_key = String::from_str("length");
        if property_key.eq(&length_key) {
            match value {
                JSValueVariant::JSNumber(n) => {
                    let expected = num_from_u64(self.str_value.as_str().unicode_len() as u64);
                    if n.bits == expected {
                        self.length_bits = expected;
                        true
                    } else {
                        false
                    }
                },
                _ => false,
            }
        } else {
            false
        }
    }

    /// The property-bearing capability: the synthetic `length` property is
    /// the cached number; every other name is absent.
    pub fn get_property(&self, property_key: &String) -> (r: Option<JSValueVariant>)
        ensures
            property_key@ == "length"@ ==> r == Some(
                JSValueVariant::JSNumber(JSNumber { bits: self.length_bits }),
            ),
            property_key@ != "length"@ ==> r is None,
    {
        let length_key = String::from_str("length");
        if property_key.eq(&length_key) {
            Some(JSValueVariant::JSNumber(JSNumber { bits: self.length_bits }))
        } else {
            None
        }
    }
}

} // verus!
