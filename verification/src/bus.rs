//! The PPU's address space outside its own palette RAM: the cartridge's
//! CHR and the console's CIRAM.

use vstd::prelude::*;

verus! {

/// The PPU's VRAM bus. An implementation says, as spec functions, what a
/// read at each address answers (`peek`), what the read leaves the bus as
/// (`after_read`: a cartridge may watch the address lines) and what a
/// write turns the bus into (`written`).
pub trait VramBus: Sized {
    /// The byte a read of address `a` answers in this state.
    spec fn peek(&self, a: u16) -> u8;

    /// The bus after a read of address `a`.
    spec fn after_read(&self, a: u16) -> Self;

    /// The bus after a write of `v` to address `a`.
    spec fn written(&self, a: u16, v: u8) -> Self;

    /// Read the byte at `a`.
    fn read(&mut self, a: u16) -> (r: u8)
        ensures
            r == old(self).peek(a),
            *final(self) == old(self).after_read(a),
    ;

    /// Write `v` at `a`.
    fn write(&mut self, a: u16, v: u8)
        ensures
            *final(self) == old(self).written(a, v),
    ;
}

/// A world as a pure function of the address: reads answer the function's
/// value, writes are dropped (a `Fast` records them in `vram_writes`).
/// The function is held as its table of values over every `u16` address.
pub struct FnVram {
    values: Vec<u8>,
}

impl FnVram {
    /// The value the world's function gives at `a`.
    pub closed spec fn value(&self, a: u16) -> u8 {
        self.values@[a as int]
    }

    #[verifier::type_invariant]
    spec fn inv(self) -> bool {
        self.values@.len() == 0x10000
    }

    /// Tabulate `f` over every address.
    pub fn from_fn<F: Fn(u16) -> u8>(f: F) -> (w: FnVram)
        requires
            forall|a: u16| #[trigger] f.requires((a,)),
        ensures
            forall|a: u16| #[trigger] f.ensures((a,), w.value(a)),
    {
        let mut values: Vec<u8> = Vec::with_capacity(0x10000);
        let mut i: u32 = 0;
        while i < 0x10000
            invariant
                i <= 0x10000,
                values@.len() == i,
                forall|a: u16| #[trigger] f.requires((a,)),
                forall|j: int| 0 <= j < i ==> #[trigger] f.ensures((j as u16,), values@[j]),
            decreases 0x10000 - i,
        {
            let b = f(i as u16);
            values.push(b);
            i = i + 1;
        }
        let w = FnVram { values };
        assert forall|a: u16| #[trigger] f.ensures((a,), w.value(a)) by {
            assert(f.ensures(((a as int) as u16,), values@[a as int]));
        }
        w
    }

}

impl VramBus for FnVram {
    closed spec fn peek(&self, a: u16) -> u8 {
        self.value(a)
    }

    closed spec fn after_read(&self, a: u16) -> Self {
        *self
    }

    closed spec fn written(&self, a: u16, v: u8) -> Self {
        *self
    }

    fn read(&mut self, a: u16) -> (r: u8) {
        proof {
            use_type_invariant(&*self);
        }
        self.values[a as usize]
    }

    fn write(&mut self, a: u16, v: u8) {
    }
}

/// The world's reads answer its function, and neither reads nor writes
/// change it.
pub proof fn law_fn_vram_is_pure(w: FnVram, a: u16, v: u8)
    ensures
        w.peek(a) == w.value(a),
        w.after_read(a) == w,
        w.written(a, v) == w,
{
}

} // verus!
