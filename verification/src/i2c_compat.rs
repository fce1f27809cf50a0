//! A bus handle that carries an I2C bus of the current interface to code
//! written for the older one.

use vstd::prelude::*;

verus! {

/// Holds an I2C bus for use through the older blocking I2C interface.
pub struct I2cCompat<I2C> {
    inner: I2C,
}

impl<I2C> I2cCompat<I2C> {
    /// The bus it holds.
    pub closed spec fn bus(&self) -> I2C {
        self.inner
    }

    /// Wraps a bus.
    pub fn new(inner: I2C) -> (r: Self)
        ensures
            r.bus() == inner,
    {
        Self { inner }
    }

    /// The bus it holds, for a transaction.
    pub fn inner_mut(&mut self) -> (r: &mut I2C)
        ensures
            *r == old(self).bus(),
            final(self).bus() == *final(r),
    {
        &mut self.inner
    }

    /// Gives the bus back.
    pub fn into_inner(self) -> (r: I2C)
        ensures
            r == self.bus(),
    {
        self.inner
    }
}

} // verus!
