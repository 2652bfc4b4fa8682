//! `==` on integers, scalars, points, keys and messages: equality of what
//! they stand for.

use crate::bigint::BigInt;
use crate::curve::{Point, Scalar};
use crate::messages::keygen::DecommitPublicKey;
use crate::messages::signing::{Phase5Com1, Phase5Com2, Phase5Decom2};
use crate::paillier::{DecryptionKey, EncryptionKey, PaillierKeys};
use vstd::prelude::*;
use vstd::std_specs::cmp::PartialEqSpecImpl;

verus! {

impl PartialEq for BigInt {
    fn eq(&self, other: &Self) -> (r: bool) {
        BigInt::eq(self, other)
    }
}

impl PartialEqSpecImpl for BigInt {
    open spec fn obeys_eq_spec() -> bool {
        true
    }

    open spec fn eq_spec(&self, other: &Self) -> bool {
        self@ == other@
    }
}

impl PartialEq for Scalar {
    fn eq(&self, other: &Self) -> (r: bool) {
        Scalar::eq(self, other)
    }
}

impl PartialEqSpecImpl for Scalar {
    open spec fn obeys_eq_spec() -> bool {
        true
    }

    open spec fn eq_spec(&self, other: &Self) -> bool {
        self@ == other@
    }
}

impl PartialEq for Point {
    fn eq(&self, other: &Self) -> (r: bool) {
        Point::eq(self, other)
    }
}

impl PartialEqSpecImpl for Point {
    open spec fn obeys_eq_spec() -> bool {
        true
    }

    open spec fn eq_spec(&self, other: &Self) -> bool {
        self@ == other@
    }
}

impl PartialEq for EncryptionKey {
    fn eq(&self, other: &Self) -> (r: bool) {
        self.n == other.n && self.nn == other.nn
    }
}

impl PartialEqSpecImpl for EncryptionKey {
    open spec fn obeys_eq_spec() -> bool {
        true
    }

    open spec fn eq_spec(&self, other: &Self) -> bool {
        self.n@ == other.n@ && self.nn@ == other.nn@
    }
}

impl PartialEq for DecryptionKey {
    fn eq(&self, other: &Self) -> (r: bool) {
        self.p == other.p && self.q == other.q
    }
}

impl PartialEqSpecImpl for DecryptionKey {
    open spec fn obeys_eq_spec() -> bool {
        true
    }

    open spec fn eq_spec(&self, other: &Self) -> bool {
        self.p@ == other.p@ && self.q@ == other.q@
    }
}

impl PartialEq for PaillierKeys {
    fn eq(&self, other: &Self) -> (r: bool) {
        self.dk.p == other.dk.p && self.dk.q == other.dk.q && self.ek.n == other.ek.n && self.ek.nn == other.ek.nn
    }
}

impl PartialEqSpecImpl for PaillierKeys {
    open spec fn obeys_eq_spec() -> bool {
        true
    }

    open spec fn eq_spec(&self, other: &Self) -> bool {
        self.dk.p@ == other.dk.p@ && self.dk.q@ == other.dk.q@ && self.ek.n@ == other.ek.n@ && self.ek.nn@ == other.ek.nn@
    }
}

impl PartialEq for DecommitPublicKey {
    fn eq(&self, other: &Self) -> (r: bool) {
        self.blind_factor == other.blind_factor && self.y_i == other.y_i
    }
}

impl PartialEqSpecImpl for DecommitPublicKey {
    open spec fn obeys_eq_spec() -> bool {
        true
    }

    open spec fn eq_spec(&self, other: &Self) -> bool {
        self.blind_factor@ == other.blind_factor@ && self.y_i@ == other.y_i@
    }
}

impl PartialEq for Phase5Com1 {
    fn eq(&self, other: &Self) -> (r: bool) {
        self.com == other.com
    }
}

impl PartialEqSpecImpl for Phase5Com1 {
    open spec fn obeys_eq_spec() -> bool {
        true
    }

    open spec fn eq_spec(&self, other: &Self) -> bool {
        self.com@ == other.com@
    }
}

impl Eq for Phase5Com1 {
}

impl PartialEq for Phase5Com2 {
    fn eq(&self, other: &Self) -> (r: bool) {
        self.com == other.com
    }
}

impl PartialEqSpecImpl for Phase5Com2 {
    open spec fn obeys_eq_spec() -> bool {
        true
    }

    open spec fn eq_spec(&self, other: &Self) -> bool {
        self.com@ == other.com@
    }
}

impl Eq for Phase5Com2 {
}

impl PartialEq for Phase5Decom2 {
    fn eq(&self, other: &Self) -> (r: bool) {
        self.U_i == other.U_i && self.T_i == other.T_i && self.blind_factor == other.blind_factor
    }
}

impl PartialEqSpecImpl for Phase5Decom2 {
    open spec fn obeys_eq_spec() -> bool {
        true
    }

    open spec fn eq_spec(&self, other: &Self) -> bool {
        self.U_i@ == other.U_i@ && self.T_i@ == other.T_i@ && self.blind_factor@ == other.blind_factor@
    }
}

} // verus!
