//! Bit-field storage used by the boot ROM's FlexSPI NOR configuration
//! option block. Bits are numbered little-endian: bit `i` is bit `i % 8` of
//! byte `i / 8`.

#![allow(non_camel_case_types)]

use vstd::prelude::*;

verus! {

/// Bit `index` of `bytes`.
pub open spec fn bit_at(bytes: Seq<u8>, index: int) -> bool {
    (bytes[index / 8] >> ((index % 8) as u8)) & 1u8 == 1u8
}

/// Bit `index` of the number `x`.
pub open spec fn bit_u64(x: u64, index: int) -> bool {
    (x >> (index as u64)) & 1u64 == 1u64
}

proof fn lemma_u8_mask(b: u8, k: u8)
    by (bit_vector)
    requires
        k < 8,
    ensures
        ((b & (1u8 << k)) == (1u8 << k)) == ((b >> k) & 1u8 == 1u8),
{
}

proof fn lemma_u8_update(b: u8, k: u8, m: u8)
    by (bit_vector)
    requires
        k < 8,
        m < 8,
    ensures
        (((b | (1u8 << k)) >> m) & 1u8 == 1u8) == (m == k || (b >> m) & 1u8 == 1u8),
        (((b & !(1u8 << k)) >> m) & 1u8 == 1u8) == (m != k && (b >> m) & 1u8 == 1u8),
{
}

proof fn lemma_u64_mask(v: u64, k: u64)
    by (bit_vector)
    requires
        k < 64,
    ensures
        ((v & (1u64 << k)) == (1u64 << k)) == ((v >> k) & 1u64 == 1u64),
{
}

proof fn lemma_u64_or(v: u64, k: u64, m: u64)
    by (bit_vector)
    requires
        k < 64,
        m < 64,
    ensures
        (((v | (1u64 << k)) >> m) & 1u64 == 1u64) == (m == k || (v >> m) & 1u64 == 1u64),
{
}

proof fn lemma_u64_zero(m: u64)
    by (bit_vector)
    requires
        m < 64,
    ensures
        (0u64 >> m) & 1u64 == 0u64,
{
}

/// A block of bit fields packed into `Storage`.
#[derive(Clone, Copy, Debug, Default, PartialEq, Eq, Hash, PartialOrd, Ord)]
pub struct __BindgenBitfieldUnit<Storage> {
    storage: Storage,
}

impl<Storage> __BindgenBitfieldUnit<Storage> {
    /// The packed storage.
    pub closed spec fn spec_storage(&self) -> Storage {
        self.storage
    }

    /// The packed storage.
    pub fn storage(&self) -> (r: &Storage)
        ensures
            *r == self.spec_storage(),
    {
        &self.storage
    }

    /// A unit over `storage`.
    pub fn new(storage: Storage) -> (r: Self)
        ensures
            r.spec_storage() == storage,
    {
        Self { storage }
    }
}

impl<const N: usize> __BindgenBitfieldUnit<[u8; N]> {
    /// The packed bytes.
    pub open spec fn bytes(&self) -> Seq<u8> {
        self.spec_storage()@
    }

    /// Bit `index`.
    pub fn get_bit(&self, index: usize) -> (r: bool)
        requires
            index < 8 * N,
        ensures
            r == bit_at(self.bytes(), index as int),
    {
        let byte_index = index / 8;
        let byte = self.storage[byte_index];
        let bit_index = (index % 8) as u8;
        let mask: u8 = 1u8 << bit_index;
        proof {
            lemma_u8_mask(byte, bit_index);
        }
        byte & mask == mask
    }

    /// Sets bit `index` to `val`, leaving every other bit as it was.
    pub fn set_bit(&mut self, index: usize, val: bool)
        requires
            index < 8 * N,
        ensures
            final(self).bytes().len() == N,
            forall|j: int|
                0 <= j < 8 * N ==> #[trigger] bit_at(final(self).bytes(), j) == if j == index {
                    val
                } else {
                    bit_at(old(self).bytes(), j)
                },
    {
        let byte_index = index / 8;
        let bit_index = (index % 8) as u8;
        let mask: u8 = 1u8 << bit_index;
        let byte = self.storage[byte_index];
        let updated = if val {
            byte | mask
        } else {
            byte & !mask
        };
        self.storage[byte_index] = updated;
        proof {
            assert forall|j: int| 0 <= j < 8 * N implies #[trigger] bit_at(self.bytes(), j) == if j
                == index {
                val
            } else {
                bit_at(old(self).bytes(), j)
            } by {
                if j / 8 == byte_index as int {
                    lemma_u8_update(byte, bit_index, (j % 8) as u8);
                }
            }
        }
    }

    /// The `bit_width` bits from `bit_offset` on, as a number: bit `j` of
    /// the result is bit `bit_offset + j` of the unit.
    pub fn get(&self, bit_offset: usize, bit_width: u8) -> (r: u64)
        requires
            bit_width <= 64,
            bit_offset + bit_width <= 8 * N,
            bit_offset + bit_width <= usize::MAX,
        ensures
            forall|j: int|
                0 <= j < 64 ==> #[trigger] bit_u64(r, j) == (j < bit_width && bit_at(
                    self.bytes(),
                    bit_offset + j,
                )),
    {
        let mut val: u64 = 0;
        let mut i: usize = 0;
        assert forall|j: int| 0 <= j < 64 implies !#[trigger] bit_u64(val, j) by {
            lemma_u64_zero(j as u64);
        }
        while i < bit_width as usize
            invariant
                i <= bit_width,
                bit_width <= 64,
                bit_offset + bit_width <= 8 * N,
                bit_offset + bit_width <= usize::MAX,
                forall|j: int|
                    0 <= j < 64 ==> #[trigger] bit_u64(val, j) == (j < i && bit_at(
                        self.bytes(),
                        bit_offset + j,
                    )),
            decreases bit_width - i,
        {
            if self.get_bit(i + bit_offset) {
                let ghost before = val;
                val = val | (1u64 << i as u64);
                assert forall|j: int| 0 <= j < 64 implies #[trigger] bit_u64(val, j) == (j == i
                    || bit_u64(before, j)) by {
                    lemma_u64_or(before, i as u64, j as u64);
                }
            }
            i += 1;
        }
        val
    }

    /// Stores the low `bit_width` bits of `val` at `bit_offset` on, leaving
    /// every other bit as it was.
    pub fn set(&mut self, bit_offset: usize, bit_width: u8, val: u64)
        requires
            bit_width <= 64,
            bit_offset + bit_width <= 8 * N,
            bit_offset + bit_width <= usize::MAX,
        ensures
            final(self).bytes().len() == N,
            forall|j: int|
                0 <= j < 8 * N ==> #[trigger] bit_at(final(self).bytes(), j) == if bit_offset <= j
                    < bit_offset + bit_width {
                    bit_u64(val, j - bit_offset)
                } else {
                    bit_at(old(self).bytes(), j)
                },
    {
        let mut i: usize = 0;
        while i < bit_width as usize
            invariant
                i <= bit_width,
                bit_width <= 64,
                bit_offset + bit_width <= 8 * N,
                bit_offset + bit_width <= usize::MAX,
                self.bytes().len() == N,
                forall|j: int|
                    0 <= j < 8 * N ==> #[trigger] bit_at(self.bytes(), j) == if bit_offset <= j
                        < bit_offset + i {
                        bit_u64(val, j - bit_offset)
                    } else {
                        bit_at(old(self).bytes(), j)
                    },
            decreases bit_width - i,
        {
            let mask: u64 = 1u64 << i as u64;
            let val_bit_is_set = val & mask == mask;
            proof {
                lemma_u64_mask(val, i as u64);
            }
            self.set_bit(i + bit_offset, val_bit_is_set);
            i += 1;
        }
    }
}

/// Bit `index` of the number `x`.
pub open spec fn bit_u32(x: u32, index: int) -> bool {
    (x >> (index as u32)) & 1u32 == 1u32
}

/// `r` holds, from bit 0 on, the `width` bits of `bytes` at `offset`, and
/// zeros above them.
pub open spec fn reads_field(r: u32, bytes: Seq<u8>, offset: int, width: int) -> bool {
    forall|j: int|
        0 <= j < 32 ==> #[trigger] bit_u32(r, j) == (j < width && bit_at(bytes, offset + j))
}

/// `after` is `before` with the `width` bits at `offset` replaced by the
/// low bits of `val`.
pub open spec fn writes_field(
    after: Seq<u8>,
    before: Seq<u8>,
    offset: int,
    width: int,
    val: u32,
) -> bool {
    forall|j: int|
        0 <= j < 32 ==> #[trigger] bit_at(after, j) == if offset <= j < offset + width {
            bit_u32(val, j - offset)
        } else {
            bit_at(before, j)
        }
}

/// The `width` bits of `bytes` at `offset` are the low bits of `val`.
pub open spec fn field_is(bytes: Seq<u8>, offset: int, width: int, val: u32) -> bool {
    forall|j: int| 0 <= j < width ==> #[trigger] bit_at(bytes, offset + j) == bit_u32(val, j)
}

proof fn lemma_narrow(x: u64, j: u64)
    by (bit_vector)
    requires
        j < 32,
    ensures
        (((x as u32) >> (j as u32)) & 1u32 == 1u32) == ((x >> j) & 1u64 == 1u64),
{
}

proof fn lemma_widen(x: u32, j: u64)
    by (bit_vector)
    requires
        j < 32,
    ensures
        (((x as u64) >> j) & 1u64 == 1u64) == ((x >> (j as u32)) & 1u32 == 1u32),
{
}

/// The field of `width` bits at `offset` of a 32-bit unit.
fn read_field(unit: &__BindgenBitfieldUnit<[u8; 4]>, offset: usize, width: u8) -> (r: u32)
    requires
        offset + width <= 32,
    ensures
        reads_field(r, unit.bytes(), offset as int, width as int),
{
    let v = unit.get(offset, width);
    proof {
        assert forall|j: int| 0 <= j < 32 implies #[trigger] bit_u32(v as u32, j) == bit_u64(
            v,
            j,
        ) by {
            lemma_narrow(v, j as u64);
        }
    }
    v as u32
}

/// Stores the low `width` bits of `val` as the field at `offset` of a 32-bit unit.
fn write_field(unit: &mut __BindgenBitfieldUnit<[u8; 4]>, offset: usize, width: u8, val: u32)
    requires
        offset + width <= 32,
    ensures
        writes_field(final(unit).bytes(), old(unit).bytes(), offset as int, width as int, val),
{
    proof {
        assert forall|j: int| 0 <= j < 32 implies #[trigger] bit_u64(val as u64, j) == bit_u32(
            val,
            j,
        ) by {
            lemma_widen(val, j as u64);
        }
    }
    unit.set(offset, width, val as u64);
}

/// First word of the serial NOR configuration option block.
#[derive(Clone, Copy, Debug)]
pub struct _serial_nor_config_option__bindgen_ty_1__bindgen_ty_1 {
    pub _bitfield_align_1: [u8; 0],
    pub _bitfield_1: __BindgenBitfieldUnit<[u8; 4]>,
}

impl _serial_nor_config_option__bindgen_ty_1__bindgen_ty_1 {
    /// Serial clock frequency selector.
    pub fn max_freq(&self) -> (r: u32)
        ensures
            reads_field(r, self._bitfield_1.bytes(), 0, 4),
    {
        read_field(&self._bitfield_1, 0, 4)
    }

    /// Sets the field `max_freq` to the low 4 bits of `val`.
    pub fn set_max_freq(&mut self, val: u32)
        ensures
            writes_field(final(self)._bitfield_1.bytes(), old(self)._bitfield_1.bytes(), 0, 4, val),
    {
        write_field(&mut self._bitfield_1, 0, 4, val)
    }

    /// Miscellaneous mode.
    pub fn misc_mode(&self) -> (r: u32)
        ensures
            reads_field(r, self._bitfield_1.bytes(), 4, 4),
    {
        read_field(&self._bitfield_1, 4, 4)
    }

    /// Sets the field `misc_mode` to the low 4 bits of `val`.
    pub fn set_misc_mode(&mut self, val: u32)
        ensures
            writes_field(final(self)._bitfield_1.bytes(), old(self)._bitfield_1.bytes(), 4, 4, val),
    {
        write_field(&mut self._bitfield_1, 4, 4, val)
    }

    /// Quad mode setting.
    pub fn quad_mode_setting(&self) -> (r: u32)
        ensures
            reads_field(r, self._bitfield_1.bytes(), 8, 4),
    {
        read_field(&self._bitfield_1, 8, 4)
    }

    /// Sets the field `quad_mode_setting` to the low 4 bits of `val`.
    pub fn set_quad_mode_setting(&mut self, val: u32)
        ensures
            writes_field(final(self)._bitfield_1.bytes(), old(self)._bitfield_1.bytes(), 8, 4, val),
    {
        write_field(&mut self._bitfield_1, 8, 4, val)
    }

    /// Pads used for commands.
    pub fn cmd_pads(&self) -> (r: u32)
        ensures
            reads_field(r, self._bitfield_1.bytes(), 12, 4),
    {
        read_field(&self._bitfield_1, 12, 4)
    }

    /// Sets the field `cmd_pads` to the low 4 bits of `val`.
    pub fn set_cmd_pads(&mut self, val: u32)
        ensures
            writes_field(final(self)._bitfield_1.bytes(), old(self)._bitfield_1.bytes(), 12, 4, val),
    {
        write_field(&mut self._bitfield_1, 12, 4, val)
    }

    /// Pads used for the SFDP query.
    pub fn query_pads(&self) -> (r: u32)
        ensures
            reads_field(r, self._bitfield_1.bytes(), 16, 4),
    {
        read_field(&self._bitfield_1, 16, 4)
    }

    /// Sets the field `query_pads` to the low 4 bits of `val`.
    pub fn set_query_pads(&mut self, val: u32)
        ensures
            writes_field(final(self)._bitfield_1.bytes(), old(self)._bitfield_1.bytes(), 16, 4, val),
    {
        write_field(&mut self._bitfield_1, 16, 4, val)
    }

    /// Device type.
    pub fn device_type(&self) -> (r: u32)
        ensures
            reads_field(r, self._bitfield_1.bytes(), 20, 4),
    {
        read_field(&self._bitfield_1, 20, 4)
    }

    /// Sets the field `device_type` to the low 4 bits of `val`.
    pub fn set_device_type(&mut self, val: u32)
        ensures
            writes_field(final(self)._bitfield_1.bytes(), old(self)._bitfield_1.bytes(), 20, 4, val),
    {
        write_field(&mut self._bitfield_1, 20, 4, val)
    }

    /// Number of option words that follow the first.
    pub fn option_size(&self) -> (r: u32)
        ensures
            reads_field(r, self._bitfield_1.bytes(), 24, 4),
    {
        read_field(&self._bitfield_1, 24, 4)
    }

    /// Sets the field `option_size` to the low 4 bits of `val`.
    pub fn set_option_size(&mut self, val: u32)
        ensures
            writes_field(final(self)._bitfield_1.bytes(), old(self)._bitfield_1.bytes(), 24, 4, val),
    {
        write_field(&mut self._bitfield_1, 24, 4, val)
    }

    /// Tag of the option block.
    pub fn tag(&self) -> (r: u32)
        ensures
            reads_field(r, self._bitfield_1.bytes(), 28, 4),
    {
        read_field(&self._bitfield_1, 28, 4)
    }

    /// Sets the field `tag` to the low 4 bits of `val`.
    pub fn set_tag(&mut self, val: u32)
        ensures
            writes_field(final(self)._bitfield_1.bytes(), old(self)._bitfield_1.bytes(), 28, 4, val),
    {
        write_field(&mut self._bitfield_1, 28, 4, val)
    }

    /// A unit holding every field of the block.
    pub fn new_bitfield_1(
        max_freq: u32,
        misc_mode: u32,
        quad_mode_setting: u32,
        cmd_pads: u32,
        query_pads: u32,
        device_type: u32,
        option_size: u32,
        tag: u32,
    ) -> (r: __BindgenBitfieldUnit<[u8; 4]>)
        ensures
            field_is(r.bytes(), 0, 4, max_freq),
            field_is(r.bytes(), 4, 4, misc_mode),
            field_is(r.bytes(), 8, 4, quad_mode_setting),
            field_is(r.bytes(), 12, 4, cmd_pads),
            field_is(r.bytes(), 16, 4, query_pads),
            field_is(r.bytes(), 20, 4, device_type),
            field_is(r.bytes(), 24, 4, option_size),
            field_is(r.bytes(), 28, 4, tag),
    {
        let mut unit = __BindgenBitfieldUnit::new([0u8; 4]);
        write_field(&mut unit, 0, 4, max_freq);
        write_field(&mut unit, 4, 4, misc_mode);
        write_field(&mut unit, 8, 4, quad_mode_setting);
        write_field(&mut unit, 12, 4, cmd_pads);
        write_field(&mut unit, 16, 4, query_pads);
        write_field(&mut unit, 20, 4, device_type);
        write_field(&mut unit, 24, 4, option_size);
        write_field(&mut unit, 28, 4, tag);
        unit
    }
}

/// Second word of the serial NOR configuration option block.
#[derive(Clone, Copy, Debug)]
pub struct _serial_nor_config_option__bindgen_ty_2__bindgen_ty_1 {
    pub _bitfield_align_1: [u8; 0],
    pub _bitfield_1: __BindgenBitfieldUnit<[u8; 4]>,
}

impl _serial_nor_config_option__bindgen_ty_2__bindgen_ty_1 {
    /// Dummy cycles for reads.
    pub fn dummy_cycles(&self) -> (r: u32)
        ensures
            reads_field(r, self._bitfield_1.bytes(), 0, 8),
    {
        read_field(&self._bitfield_1, 0, 8)
    }

    /// Sets the field `dummy_cycles` to the low 8 bits of `val`.
    pub fn set_dummy_cycles(&mut self, val: u32)
        ensures
            writes_field(final(self)._bitfield_1.bytes(), old(self)._bitfield_1.bytes(), 0, 8, val),
    {
        write_field(&mut self._bitfield_1, 0, 8, val)
    }

    /// Reserved.
    pub fn reserved0(&self) -> (r: u32)
        ensures
            reads_field(r, self._bitfield_1.bytes(), 8, 8),
    {
        read_field(&self._bitfield_1, 8, 8)
    }

    /// Sets the field `reserved0` to the low 8 bits of `val`.
    pub fn set_reserved0(&mut self, val: u32)
        ensures
            writes_field(final(self)._bitfield_1.bytes(), old(self)._bitfield_1.bytes(), 8, 8, val),
    {
        write_field(&mut self._bitfield_1, 8, 8, val)
    }

    /// Pin multiplexing group.
    pub fn pinmux_group(&self) -> (r: u32)
        ensures
            reads_field(r, self._bitfield_1.bytes(), 16, 4),
    {
        read_field(&self._bitfield_1, 16, 4)
    }

    /// Sets the field `pinmux_group` to the low 4 bits of `val`.
    pub fn set_pinmux_group(&mut self, val: u32)
        ensures
            writes_field(final(self)._bitfield_1.bytes(), old(self)._bitfield_1.bytes(), 16, 4, val),
    {
        write_field(&mut self._bitfield_1, 16, 4, val)
    }

    /// Reserved.
    pub fn reserved1(&self) -> (r: u32)
        ensures
            reads_field(r, self._bitfield_1.bytes(), 20, 8),
    {
        read_field(&self._bitfield_1, 20, 8)
    }

    /// Sets the field `reserved1` to the low 8 bits of `val`.
    pub fn set_reserved1(&mut self, val: u32)
        ensures
            writes_field(final(self)._bitfield_1.bytes(), old(self)._bitfield_1.bytes(), 20, 8, val),
    {
        write_field(&mut self._bitfield_1, 20, 8, val)
    }

    /// How the flash device is connected.
    pub fn flash_connection(&self) -> (r: u32)
        ensures
            reads_field(r, self._bitfield_1.bytes(), 28, 4),
    {
        read_field(&self._bitfield_1, 28, 4)
    }

    /// Sets the field `flash_connection` to the low 4 bits of `val`.
    pub fn set_flash_connection(&mut self, val: u32)
        ensures
            writes_field(final(self)._bitfield_1.bytes(), old(self)._bitfield_1.bytes(), 28, 4, val),
    {
        write_field(&mut self._bitfield_1, 28, 4, val)
    }

    /// A unit holding every field of the block.
    pub fn new_bitfield_1(
        dummy_cycles: u32,
        reserved0: u32,
        pinmux_group: u32,
        reserved1: u32,
        flash_connection: u32,
    ) -> (r: __BindgenBitfieldUnit<[u8; 4]>)
        ensures
            field_is(r.bytes(), 0, 8, dummy_cycles),
            field_is(r.bytes(), 8, 8, reserved0),
            field_is(r.bytes(), 16, 4, pinmux_group),
            field_is(r.bytes(), 20, 8, reserved1),
            field_is(r.bytes(), 28, 4, flash_connection),
    {
        let mut unit = __BindgenBitfieldUnit::new([0u8; 4]);
        write_field(&mut unit, 0, 8, dummy_cycles);
        write_field(&mut unit, 8, 8, reserved0);
        write_field(&mut unit, 16, 4, pinmux_group);
        write_field(&mut unit, 20, 8, reserved1);
        write_field(&mut unit, 28, 4, flash_connection);
        unit
    }
}

} // verus!
