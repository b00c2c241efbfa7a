//! The instruction codec: discriminant-tagged payloads for the two call
//! shapes (`Mine`, `Auth`), the standalone `MineInstruction` payloads, and
//! the fixed six-account ordering every call carries. One leading byte is
//! the discriminant; the payload widths are implied by it, with no length
//! prefixes.

use vstd::prelude::*;
use vstd::bytes::{
    lemma_auto_spec_u64_to_from_le_bytes, spec_u64_from_le_bytes, spec_u64_to_le_bytes,
};
use crate::codec::{clone_bytes, copy_range, push_bytes, read_u64_le, write_u64_le};
use crate::error::MineError;

verus! {

// ----------------------------------------------------------------------
// DeadInstruction: the engine's own two call shapes
// ----------------------------------------------------------------------

/// A call into the engine: a proof submission or an authority binding.
#[derive(Debug)]
pub enum DeadInstruction {
    /// Submit a candidate hash and the nonce that produced it.
    Mine { hash: Vec<u8>, nonce: Vec<u8> },
    /// Bind the submitting authority to a beneficiary.
    Auth,
}

/// Mathematical image of a `DeadInstruction`.
pub enum DeadInstructionV {
    Mine { hash: Seq<u8>, nonce: Seq<u8> },
    Auth,
}

impl View for DeadInstruction {
    type V = DeadInstructionV;

    open spec fn view(&self) -> DeadInstructionV {
        match self {
            DeadInstruction::Mine { hash, nonce } => DeadInstructionV::Mine {
                hash: hash@,
                nonce: nonce@,
            },
            DeadInstruction::Auth => DeadInstructionV::Auth,
        }
    }
}

impl DeadInstructionV {
    /// Structural validity: a 32-byte hash and an 8-byte nonce.
    pub open spec fn wf(self) -> bool {
        match self {
            DeadInstructionV::Mine { hash, nonce } => hash.len() == 32 && nonce.len() == 8,
            DeadInstructionV::Auth => true,
        }
    }
}

/// The encoded payload: discriminant byte, then the fixed-width fields.
pub open spec fn spec_instruction_bytes(i: DeadInstructionV) -> Seq<u8> {
    match i {
        DeadInstructionV::Mine { hash, nonce } => seq![0u8] + hash + nonce,
        DeadInstructionV::Auth => seq![1u8],
    }
}

/// The instruction read from a payload buffer, or the malformed-instruction
/// error when the discriminant is unknown or the length does not match it.
pub open spec fn spec_instruction_of(b: Seq<u8>) -> Result<DeadInstructionV, MineError> {
    if b.len() == 41 && b[0] == 0 {
        Ok(
            DeadInstructionV::Mine { hash: b.subrange(1, 33), nonce: b.subrange(33, 41) },
        )
    } else if b.len() == 1 && b[0] == 1 {
        Ok(DeadInstructionV::Auth)
    } else {
        Err(MineError::MalformedInstruction)
    }
}

/// Encode-then-decode reproduces a well-formed instruction exactly,
/// `hash` and `nonce` included.
pub proof fn lemma_instruction_round_trip(i: DeadInstructionV)
    requires
        i.wf(),
    ensures
        spec_instruction_of(spec_instruction_bytes(i)) == Ok::<DeadInstructionV, MineError>(i),
{
    let b = spec_instruction_bytes(i);
    match i {
        DeadInstructionV::Mine { hash, nonce } => {
            assert(b[0] == 0);
            assert(b.subrange(1, 33) =~= hash);
            assert(b.subrange(33, 41) =~= nonce);
        },
        DeadInstructionV::Auth => {
            assert(b[0] == 1);
        },
    }
}

impl DeadInstruction {
    /// Encode this instruction into its payload bytes.
    pub fn encode(&self) -> (r: Vec<u8>)
        ensures
            r@ == spec_instruction_bytes(self@),
    {
        match self {
            DeadInstruction::Mine { hash, nonce } => {
                let mut out: Vec<u8> = Vec::new();
                out.push(0u8);
                push_bytes(&mut out, hash);
                push_bytes(&mut out, nonce);
                proof {
                    assert(out@ =~= seq![0u8] + hash@ + nonce@);
                }
                out
            },
            DeadInstruction::Auth => {
                let mut out: Vec<u8> = Vec::new();
                out.push(1u8);
                proof {
                    assert(out@ =~= seq![1u8]);
                }
                out
            },
        }
    }

    /// Decode an instruction from its payload bytes, rejecting any buffer
    /// whose discriminant or length does not fit either call shape.
    pub fn decode(data: &Vec<u8>) -> (r: Result<DeadInstruction, MineError>)
        ensures
            r matches Ok(i) ==> spec_instruction_of(data@) == Ok::<DeadInstructionV, MineError>(i@)
                && i@.wf(),
            r matches Err(e) ==> spec_instruction_of(data@) == Err::<DeadInstructionV, MineError>(
                e,
            ),
    {
        if data.len() == 0 {
            return Err(MineError::MalformedInstruction);
        }
        let disc = data[0];
        if disc == 0 {
            if data.len() != 41 {
                return Err(MineError::MalformedInstruction);
            }
            let hash = copy_range(data, 1, 32);
            let nonce = copy_range(data, 33, 8);
            Ok(DeadInstruction::Mine { hash, nonce })
        } else if disc == 1 {
            if data.len() != 1 {
                return Err(MineError::MalformedInstruction);
            }
            Ok(DeadInstruction::Auth)
        } else {
            Err(MineError::MalformedInstruction)
        }
    }
}

// ----------------------------------------------------------------------
// The fixed account ordering
// ----------------------------------------------------------------------

/// One account reference a call carries: its identity and access flags.
#[derive(Debug)]
pub struct AccountRef {
    /// The referenced identity (32 bytes).
    pub key: Vec<u8>,
    /// Whether the account must sign the transaction.
    pub is_signer: bool,
    /// Whether the call may mutate the account.
    pub is_writable: bool,
}

/// Mathematical image of an `AccountRef`.
pub struct AccountRefV {
    pub key: Seq<u8>,
    pub is_signer: bool,
    pub is_writable: bool,
}

impl View for AccountRef {
    type V = AccountRefV;

    open spec fn view(&self) -> AccountRefV {
        AccountRefV { key: self.key@, is_signer: self.is_signer, is_writable: self.is_writable }
    }
}

/// The deployment identities a call references besides its own accounts,
/// constructed once at process start and passed to the codec.
pub struct ProgramAddresses {
    /// The engine's own program identity (32 bytes).
    pub program_id: Vec<u8>,
    /// Identity of the reward token (32 bytes).
    pub mint: Vec<u8>,
    /// Identity of the token-transfer sub-service (32 bytes).
    pub token_program: Vec<u8>,
    /// Identity of the hosting runtime's system service (32 bytes).
    pub system_program: Vec<u8>,
}

/// A fully assembled call: target program, ordered account references, and
/// the encoded payload.
#[derive(Debug)]
pub struct Instruction {
    /// The program the call is addressed to (32 bytes).
    pub program_id: Vec<u8>,
    /// The six account references, in the fixed order.
    pub accounts: Vec<AccountRef>,
    /// The encoded payload.
    pub data: Vec<u8>,
}

impl DeadInstruction {
    /// Assemble the full call for this instruction: the fixed six-account
    /// ordering (signer, beneficiary, writable bus, mint, token program,
    /// system program) and the encoded payload.
    pub fn to_instruction(
        &self,
        addrs: &ProgramAddresses,
        signer: &Vec<u8>,
        beneficiary: &Vec<u8>,
        bus: &Vec<u8>,
    ) -> (r: Instruction)
        ensures
            r.program_id@ == addrs.program_id@,
            r.accounts@.len() == 6,
            r.accounts@[0]@ == (AccountRefV { key: signer@, is_signer: true, is_writable: false }),
            r.accounts@[1]@ == (AccountRefV {
                key: beneficiary@,
                is_signer: false,
                is_writable: false,
            }),
            r.accounts@[2]@ == (AccountRefV { key: bus@, is_signer: false, is_writable: true }),
            r.accounts@[3]@ == (AccountRefV {
                key: addrs.mint@,
                is_signer: false,
                is_writable: false,
            }),
            r.accounts@[4]@ == (AccountRefV {
                key: addrs.token_program@,
                is_signer: false,
                is_writable: false,
            }),
            r.accounts@[5]@ == (AccountRefV {
                key: addrs.system_program@,
                is_signer: false,
                is_writable: false,
            }),
            r.data@ == spec_instruction_bytes(self@),
    {
        let mut accounts: Vec<AccountRef> = Vec::new();
        accounts.push(
            AccountRef { key: clone_bytes(signer), is_signer: true, is_writable: false },
        );
        accounts.push(
            AccountRef { key: clone_bytes(beneficiary), is_signer: false, is_writable: false },
        );
        accounts.push(AccountRef { key: clone_bytes(bus), is_signer: false, is_writable: true });
        accounts.push(
            AccountRef { key: clone_bytes(&addrs.mint), is_signer: false, is_writable: false },
        );
        accounts.push(
            AccountRef {
                key: clone_bytes(&addrs.token_program),
                is_signer: false,
                is_writable: false,
            },
        );
        accounts.push(
            AccountRef {
                key: clone_bytes(&addrs.system_program),
                is_signer: false,
                is_writable: false,
            },
        );
        Instruction { program_id: clone_bytes(&addrs.program_id), accounts, data: self.encode() }
    }
}

/// Assemble a `Mine` call from its parts.
pub fn mine(
    addrs: &ProgramAddresses,
    signer: &Vec<u8>,
    beneficiary: &Vec<u8>,
    bus: &Vec<u8>,
    hash: Vec<u8>,
    nonce: Vec<u8>,
) -> (r: Instruction)
    ensures
        r.data@ == spec_instruction_bytes(DeadInstructionV::Mine { hash: hash@, nonce: nonce@ }),
        r.accounts@.len() == 6,
        r.accounts@[0]@ == (AccountRefV { key: signer@, is_signer: true, is_writable: false }),
        r.accounts@[2]@ == (AccountRefV { key: bus@, is_signer: false, is_writable: true }),
{
    DeadInstruction::Mine { hash, nonce }.to_instruction(addrs, signer, beneficiary, bus)
}

/// Assemble an `Auth` call from its parts.
pub fn auth(
    addrs: &ProgramAddresses,
    signer: &Vec<u8>,
    beneficiary: &Vec<u8>,
    bus: &Vec<u8>,
) -> (r: Instruction)
    ensures
        r.data@ == spec_instruction_bytes(DeadInstructionV::Auth),
        r.accounts@.len() == 6,
        r.accounts@[0]@ == (AccountRefV { key: signer@, is_signer: true, is_writable: false }),
{
    DeadInstruction::Auth.to_instruction(addrs, signer, beneficiary, bus)
}

// ----------------------------------------------------------------------
// MineInstruction: the standalone mining record's call shapes
// ----------------------------------------------------------------------

/// A call against the standalone mining record.
#[derive(Debug)]
pub enum MineInstruction {
    /// Reset the record to a fresh pool at the given difficulty.
    Initialize { initial_difficulty: u64 },
    /// Submit a proof hash extending the record's last block hash.
    VerifyMine { proof_hash: Vec<u8> },
}

/// Mathematical image of a `MineInstruction`.
pub enum MineInstructionV {
    Initialize { initial_difficulty: u64 },
    VerifyMine { proof_hash: Seq<u8> },
}

impl View for MineInstruction {
    type V = MineInstructionV;

    open spec fn view(&self) -> MineInstructionV {
        match self {
            MineInstruction::Initialize { initial_difficulty } => MineInstructionV::Initialize {
                initial_difficulty: *initial_difficulty,
            },
            MineInstruction::VerifyMine { proof_hash } => MineInstructionV::VerifyMine {
                proof_hash: proof_hash@,
            },
        }
    }
}

impl MineInstructionV {
    /// Structural validity: a 32-byte proof hash.
    pub open spec fn wf(self) -> bool {
        match self {
            MineInstructionV::Initialize { .. } => true,
            MineInstructionV::VerifyMine { proof_hash } => proof_hash.len() == 32,
        }
    }
}

/// The encoded payload: discriminant byte, then the fixed-width field.
pub open spec fn spec_mine_instruction_bytes(i: MineInstructionV) -> Seq<u8> {
    match i {
        MineInstructionV::Initialize { initial_difficulty } => seq![0u8] + spec_u64_to_le_bytes(
            initial_difficulty,
        ),
        MineInstructionV::VerifyMine { proof_hash } => seq![1u8] + proof_hash,
    }
}

/// The instruction read from a payload buffer, or the malformed-instruction
/// error.
pub open spec fn spec_mine_instruction_of(b: Seq<u8>) -> Result<MineInstructionV, MineError> {
    if b.len() == 9 && b[0] == 0 {
        Ok(
            MineInstructionV::Initialize {
                initial_difficulty: spec_u64_from_le_bytes(b.subrange(1, 9)),
            },
        )
    } else if b.len() == 33 && b[0] == 1 {
        Ok(MineInstructionV::VerifyMine { proof_hash: b.subrange(1, 33) })
    } else {
        Err(MineError::MalformedInstruction)
    }
}

/// Encode-then-decode reproduces a well-formed instruction exactly.
pub proof fn lemma_mine_instruction_round_trip(i: MineInstructionV)
    requires
        i.wf(),
    ensures
        spec_mine_instruction_of(spec_mine_instruction_bytes(i)) == Ok::<
            MineInstructionV,
            MineError,
        >(i),
{
    lemma_auto_spec_u64_to_from_le_bytes();
    let b = spec_mine_instruction_bytes(i);
    match i {
        MineInstructionV::Initialize { initial_difficulty } => {
            assert(b[0] == 0);
            assert(b.subrange(1, 9) =~= spec_u64_to_le_bytes(initial_difficulty));
        },
        MineInstructionV::VerifyMine { proof_hash } => {
            assert(b[0] == 1);
            assert(b.subrange(1, 33) =~= proof_hash);
        },
    }
}

impl MineInstruction {
    /// Encode this instruction into its payload bytes.
    pub fn encode(&self) -> (r: Vec<u8>)
        ensures
            r@ == spec_mine_instruction_bytes(self@),
    {
        match self {
            MineInstruction::Initialize { initial_difficulty } => {
                let mut out: Vec<u8> = Vec::new();
                out.push(0u8);
                write_u64_le(&mut out, *initial_difficulty);
                proof {
                    assert(out@ =~= seq![0u8] + spec_u64_to_le_bytes(*initial_difficulty));
                }
                out
            },
            MineInstruction::VerifyMine { proof_hash } => {
                let mut out: Vec<u8> = Vec::new();
                out.push(1u8);
                push_bytes(&mut out, proof_hash);
                proof {
                    assert(out@ =~= seq![1u8] + proof_hash@);
                }
                out
            },
        }
    }

    /// Decode an instruction from its payload bytes, rejecting any buffer
    /// whose discriminant or length does not fit either call shape.
    pub fn decode(data: &Vec<u8>) -> (r: Result<MineInstruction, MineError>)
        ensures
            r matches Ok(i) ==> spec_mine_instruction_of(data@) == Ok::<
                MineInstructionV,
                MineError,
            >(i@) && i@.wf(),
            r matches Err(e) ==> spec_mine_instruction_of(data@) == Err::<
                MineInstructionV,
                MineError,
            >(e),
    {
        if data.len() == 0 {
            return Err(MineError::MalformedInstruction);
        }
        let disc = data[0];
        if disc == 0 {
            if data.len() != 9 {
                return Err(MineError::MalformedInstruction);
            }
            let initial_difficulty = read_u64_le(data, 1);
            Ok(MineInstruction::Initialize { initial_difficulty })
        } else if disc == 1 {
            if data.len() != 33 {
                return Err(MineError::MalformedInstruction);
            }
            let proof_hash = copy_range(data, 1, 32);
            Ok(MineInstruction::VerifyMine { proof_hash })
        } else {
            Err(MineError::MalformedInstruction)
        }
    }
}

} // verus!
