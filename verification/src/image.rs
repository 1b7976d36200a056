//! Layout of the bootable disk image: one boot sector that ends in the boot
//! signature, followed directly by the kernel image.

use vstd::prelude::*;
use crate::consts::{BOOT_CODE_MAX, BOOT_SIGNATURE_HI, BOOT_SIGNATURE_LO};
use crate::machine::fill;

verus! {

/// Why a disk image could not be assembled.
#[derive(Debug, Clone, Copy, PartialEq, Eq, Structural)]
pub enum ImageError {
    /// The boot program is `len` bytes long and does not fit in front of the
    /// boot signature.
    BootTooLarge { len: usize },
}

/// `data` without its trailing zero bytes.
pub open spec fn stripped(data: Seq<u8>) -> Seq<u8>
    decreases data.len(),
{
    if data.len() > 0 && data.last() == 0 {
        stripped(data.drop_last())
    } else {
        data
    }
}

/// The two bytes of the boot signature.
pub open spec fn boot_signature() -> Seq<u8> {
    seq![BOOT_SIGNATURE_LO, BOOT_SIGNATURE_HI]
}

/// The 512-byte boot sector made from the boot program `code`: the
/// program, zero-padded to 510 bytes, then the signature.
pub open spec fn boot_sector(code: Seq<u8>) -> Seq<u8>
    recommends
        code.len() <= 510,
{
    code + fill(0, 510 - code.len()) + boot_signature()
}

/// `stripped(data)` is the longest prefix of `data` that does not end in a
/// zero byte: every byte behind it is zero.
pub proof fn lemma_stripped_is_prefix(data: Seq<u8>)
    ensures
        stripped(data).len() <= data.len(),
        stripped(data) == data.take(stripped(data).len() as int),
        stripped(data).len() > 0 ==> stripped(data).last() != 0,
        forall|i: int| stripped(data).len() <= i < data.len() ==> #[trigger] data[i] == 0,
    decreases data.len(),
{
    if data.len() > 0 && data.last() == 0 {
        let shorter = data.drop_last();
        lemma_stripped_is_prefix(shorter);
        assert(stripped(data) =~= data.take(stripped(data).len() as int));
        assert forall|i: int| stripped(data).len() <= i < data.len() implies data[i] == 0 by {
            if i < shorter.len() {
                assert(shorter[i] == 0);
            }
        }
    } else {
        assert(stripped(data) =~= data.take(stripped(data).len() as int));
    }
}

/// A boot sector is 512 bytes long and ends in the signature; a program of
/// exactly 510 bytes gets the signature appended with no padding; and the
/// trailing zeros of a program do not show in its boot sector.
pub proof fn lemma_boot_sector_layout(code: Seq<u8>)
    requires
        code.len() <= 510,
    ensures
        boot_sector(code).len() == 512,
        boot_sector(code).subrange(0, code.len() as int) == code,
        boot_sector(code)[510] == 0x55 && boot_sector(code)[511] == 0xAA,
        code.len() == 510 ==> boot_sector(code) == code + boot_signature(),
        boot_sector(stripped(code)) == boot_sector(code),
{
    lemma_stripped_is_prefix(code);
    assert(boot_sector(code).subrange(0, code.len() as int) =~= code);
    assert(code + fill(0, 0) =~= code);
    assert(stripped(code) + fill(0, 510 - stripped(code).len()) =~= code + fill(
        0,
        510 - code.len(),
    ));
}

/// Removes the trailing zero bytes of `data`.
pub fn strip_trailing_zeros(data: &mut Vec<u8>)
    ensures
        final(data)@ == stripped(old(data)@),
{
    while data.len() > 0 && data[data.len() - 1] == 0
        invariant
            stripped(data@) == stripped(old(data)@),
        decreases data.len(),
    {
        let ghost before = data@;
        data.pop();
        assert(data@ == before.drop_last());
    }
}

/// Makes the boot sector from a boot program: pads it with zeros to 510
/// bytes and appends the boot signature. A program longer than 510 bytes is
/// rejected.
pub fn seal_boot_sector(boot: Vec<u8>) -> (sector: Result<Vec<u8>, ImageError>)
    ensures
        boot@.len() <= 510 ==> sector is Ok && sector->Ok_0@ == boot_sector(boot@),
        boot@.len() > 510 ==> sector == Err::<Vec<u8>, ImageError>(
            ImageError::BootTooLarge { len: boot.len() },
        ),
{
    let mut boot = boot;
    let boot_len: usize = boot.len();
    if boot_len > BOOT_CODE_MAX {
        return Err(ImageError::BootTooLarge { len: boot_len });
    }
    let ghost code = boot@;
    assert(boot@ =~= code + fill(0, 0));
    while boot.len() < BOOT_CODE_MAX
        invariant
            code.len() <= boot.len() <= 510,
            boot@ == code + fill(0, boot.len() - code.len()),
        decreases 510 - boot.len(),
    {
        boot.push(0);
        assert(boot@ =~= code + fill(0, boot.len() - code.len()));
    }
    boot.push(BOOT_SIGNATURE_LO);
    boot.push(BOOT_SIGNATURE_HI);
    assert(boot@ =~= code + fill(0, 510 - code.len()) + boot_signature());
    Ok(boot)
}

/// Assembles the disk image: the boot sector made from `boot`, directly
/// followed by the bytes of the kernel image, which therefore begins at
/// byte 512. A boot program longer than 510 bytes is rejected.
pub fn create_image(boot: Vec<u8>, kernel: &[u8]) -> (image: Result<Vec<u8>, ImageError>)
    ensures
        boot@.len() <= 510 ==> image is Ok && image->Ok_0@ == boot_sector(boot@) + kernel@,
        boot@.len() > 510 ==> image == Err::<Vec<u8>, ImageError>(
            ImageError::BootTooLarge { len: boot.len() },
        ),
{
    match seal_boot_sector(boot) {
        Ok(sector) => {
            let mut img = sector;
            let ghost head = img@;
            let mut i: usize = 0;
            assert(img@ =~= head + kernel@.take(0));
            while i < kernel.len()
                invariant
                    i <= kernel.len(),
                    img@ == head + kernel@.take(i as int),
                decreases kernel.len() - i,
            {
                img.push(kernel[i]);
                i += 1;
                assert(img@ =~= head + kernel@.take(i as int));
            }
            assert(kernel@.take(kernel.len() as int) =~= kernel@);
            Ok(img)
        },
        Err(e) => Err(e),
    }
}

} // verus!
