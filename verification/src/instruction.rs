//! The instructions that the program takes, their payloads on the wire, and
//! helpers that assemble some of them for a client.

use vstd::prelude::*;
use crate::codec::from_payload;
use crate::codec::Decode;
use crate::codec::Encode;
use crate::error::XaamError;
use crate::lifecycle::AgentType;
use crate::pubkey::Pubkey;
use crate::wire::decode_all;
use crate::wire::Wire;

verus! {

/// Instructions supported by the program. On the wire an instruction is one
/// byte that tells the variant, from zero in the order below, and then the
/// fields of that variant.
#[derive(Clone, Debug, PartialEq, Eq)]
pub enum XaamInstruction {
    /// Initialize a new task
    ///
    /// Accounts expected:
    /// 0. `[signer]` The account of the person initializing the task
    /// 1. `[writable]` The task account, it will hold all task data
    /// 2. `[writable]` The NFT mint account
    /// 3. `[]` The rent sysvar
    /// 4. `[]` The token program
    /// 5. `[]` The system program
    InitializeTask {
        /// Task title
        title: String,
        /// Task summary
        summary: String,
        /// Encrypted payload URL
        encrypted_payload_url: String,
        /// Task deadline
        deadline: i64,
        /// Reward amount
        reward_amount: u64,
        /// Reward currency (default: USDC)
        reward_currency: String,
        /// Judges (up to 5)
        judges: Vec<Pubkey>,
    },
    /// Register a new agent
    ///
    /// Accounts expected:
    /// 0. `[signer]` The account of the person registering as an agent
    /// 1. `[writable]` The agent account, it will hold all agent data
    /// 2. `[]` The rent sysvar
    /// 3. `[]` The system program
    RegisterAgent {
        /// Agent name
        name: String,
        /// Agent description
        description: String,
        /// Agent type
        agent_type: AgentType,
        /// Public key for encryption
        public_key: String,
    },
    /// Register a new judge (extends agent)
    ///
    /// Accounts expected:
    /// 0. `[signer]` The account of the person registering as a judge
    /// 1. `[writable]` The judge account, it will hold all judge data
    /// 2. `[writable]` The agent account, which holds the base agent data
    /// 3. `[]` The rent sysvar
    /// 4. `[]` The system program
    RegisterJudge {
        /// Agent name
        name: String,
        /// Agent description
        description: String,
        /// Public key for encryption
        public_key: String,
        /// Specialization
        specialization: String,
    },
    /// Stake on a task
    ///
    /// Accounts expected:
    /// 0. `[signer]` The account of the agent staking
    /// 1. `[writable]` The stake account, it will hold all stake data
    /// 2. `[writable]` The task account, it will be updated with stake info
    /// 3. `[writable]` The agent account
    /// 4. `[]` The rent sysvar
    /// 5. `[]` The system program
    StakeOnTask {
        /// Stake amount
        amount: u64,
    },
    /// Submit a deliverable for a task
    ///
    /// Accounts expected:
    /// 0. `[signer]` The account of the agent submitting
    /// 1. `[writable]` The deliverable account, it will hold all deliverable data
    /// 2. `[writable]` The task account, it will be updated with submission info
    /// 3. `[writable]` The agent account
    /// 4. `[]` The rent sysvar
    /// 5. `[]` The system program
    SubmitDeliverable {
        /// Encrypted content URL
        encrypted_content_url: String,
        /// Encryption keys for judges
        encryption_keys: Vec<(Pubkey, String)>,
    },
    /// Judge a deliverable
    ///
    /// Accounts expected:
    /// 0. `[signer]` The account of the judge
    /// 1. `[writable]` The deliverable account, it will be updated with judging info
    /// 2. `[writable]` The task account
    /// 3. `[writable]` The judge account
    /// 4. `[]` The system program
    JudgeDeliverable {
        /// Score (0-100)
        score: u8,
        /// Feedback
        feedback: String,
    },
    /// Complete a task and distribute rewards
    ///
    /// Accounts expected:
    /// 0. `[signer]` The account of the task creator
    /// 1. `[writable]` The task account
    /// 2. `[writable]` The winning agent account
    /// 3. `[writable]` The task wallet account
    /// 4. `[writable]` The agent wallet account
    /// 5. `[]` The token program
    /// 6. `[]` The system program
    CompleteTask {  },
    /// Return stake to an agent
    ///
    /// Accounts expected:
    /// 0. `[signer]` The account approving the stake return, meant to be a
    ///    judge of the task; that it is one is not checked
    /// 1. `[writable]` The stake account
    /// 2. `[writable]` The agent account
    /// 3. `[]` The system program
    ReturnStake {  },
    /// Burn a task NFT
    ///
    /// Accounts expected:
    /// 0. `[signer]` The account of the task creator
    /// 1. `[writable]` The task account
    /// 2. `[writable]` The NFT mint account
    /// 3. `[]` The token program
    /// 4. `[]` The system program
    BurnTaskNFT {  },
}

/// An instruction as a mathematical value.
pub enum XaamInstructionView {
    InitializeTask {
        title: Seq<char>,
        summary: Seq<char>,
        encrypted_payload_url: Seq<char>,
        deadline: i64,
        reward_amount: u64,
        reward_currency: Seq<char>,
        judges: Seq<Pubkey>,
    },
    RegisterAgent {
        name: Seq<char>,
        description: Seq<char>,
        agent_type: AgentType,
        public_key: Seq<char>,
    },
    RegisterJudge {
        name: Seq<char>,
        description: Seq<char>,
        public_key: Seq<char>,
        specialization: Seq<char>,
    },
    StakeOnTask { amount: u64 },
    SubmitDeliverable {
        encrypted_content_url: Seq<char>,
        encryption_keys: Seq<(Pubkey, Seq<char>)>,
    },
    JudgeDeliverable { score: u8, feedback: Seq<char> },
    CompleteTask {  },
    ReturnStake {  },
    BurnTaskNFT {  },
}

/// The fields of `InitializeTask` in the order in which they travel.
pub type InitializeTaskWire = (
    Seq<char>,
    (Seq<char>, (Seq<char>, (i64, (u64, (Seq<char>, Seq<Pubkey>))))),
);

/// The fields of `InitializeTask` in the order in which they are read.
pub type InitializeTaskParts = (String, (String, (String, (i64, (u64, (String, Vec<Pubkey>))))));

/// The fields of `RegisterAgent` in the order in which they travel.
pub type RegisterAgentWire = (Seq<char>, (Seq<char>, (AgentType, Seq<char>)));

/// The fields of `RegisterAgent` in the order in which they are read.
pub type RegisterAgentParts = (String, (String, (AgentType, String)));

/// The fields of `RegisterJudge` in the order in which they travel.
pub type RegisterJudgeWire = (Seq<char>, (Seq<char>, (Seq<char>, Seq<char>)));

/// The fields of `RegisterJudge` in the order in which they are read.
pub type RegisterJudgeParts = (String, (String, (String, String)));

/// The fields of `SubmitDeliverable` in the order in which they travel.
pub type SubmitDeliverableWire = (Seq<char>, Seq<(Pubkey, Seq<char>)>);

/// The fields of `SubmitDeliverable` in the order in which they are read.
pub type SubmitDeliverableParts = (String, Vec<(Pubkey, String)>);

/// The fields of `JudgeDeliverable` in the order in which they travel.
pub type JudgeDeliverableWire = (u8, Seq<char>);

/// The fields of `JudgeDeliverable` in the order in which they are read.
pub type JudgeDeliverableParts = (u8, String);

impl View for XaamInstruction {
    type V = XaamInstructionView;

    open spec fn view(&self) -> XaamInstructionView {
        match self {
            XaamInstruction::InitializeTask {
                title,
                summary,
                encrypted_payload_url,
                deadline,
                reward_amount,
                reward_currency,
                judges,
            } => XaamInstructionView::InitializeTask {
                title: title@,
                summary: summary@,
                encrypted_payload_url: encrypted_payload_url@,
                deadline: *deadline,
                reward_amount: *reward_amount,
                reward_currency: reward_currency@,
                judges: judges@,
            },
            XaamInstruction::RegisterAgent {
                name,
                description,
                agent_type,
                public_key,
            } => XaamInstructionView::RegisterAgent {
                name: name@,
                description: description@,
                agent_type: *agent_type,
                public_key: public_key@,
            },
            XaamInstruction::RegisterJudge {
                name,
                description,
                public_key,
                specialization,
            } => XaamInstructionView::RegisterJudge {
                name: name@,
                description: description@,
                public_key: public_key@,
                specialization: specialization@,
            },
            XaamInstruction::StakeOnTask { amount } => XaamInstructionView::StakeOnTask {
                amount: *amount,
            },
            XaamInstruction::SubmitDeliverable {
                encrypted_content_url,
                encryption_keys,
            } => XaamInstructionView::SubmitDeliverable {
                encrypted_content_url: encrypted_content_url@,
                encryption_keys: encryption_keys.model(),
            },
            XaamInstruction::JudgeDeliverable {
                score,
                feedback,
            } => XaamInstructionView::JudgeDeliverable { score: *score, feedback: feedback@ },
            XaamInstruction::CompleteTask {  } => XaamInstructionView::CompleteTask {  },
            XaamInstruction::ReturnStake {  } => XaamInstructionView::ReturnStake {  },
            XaamInstruction::BurnTaskNFT {  } => XaamInstructionView::BurnTaskNFT {  },
        }
    }
}

impl XaamInstructionView {
    /// The byte that tells the variant.
    pub open spec fn tag(self) -> u8 {
        match self {
            XaamInstructionView::InitializeTask { .. } => 0,
            XaamInstructionView::RegisterAgent { .. } => 1,
            XaamInstructionView::RegisterJudge { .. } => 2,
            XaamInstructionView::StakeOnTask { .. } => 3,
            XaamInstructionView::SubmitDeliverable { .. } => 4,
            XaamInstructionView::JudgeDeliverable { .. } => 5,
            XaamInstructionView::CompleteTask { .. } => 6,
            XaamInstructionView::ReturnStake { .. } => 7,
            XaamInstructionView::BurnTaskNFT { .. } => 8,
        }
    }

    /// The bytes of the fields, after the byte that tells the variant.
    pub open spec fn payload(self) -> Seq<u8> {
        match self {
            XaamInstructionView::InitializeTask {
                title,
                summary,
                encrypted_payload_url,
                deadline,
                reward_amount,
                reward_currency,
                judges,
            } => (
                title,
                (
                    summary,
                    (encrypted_payload_url, (deadline, (reward_amount, (reward_currency, judges)))),
                ),
            ).wire_bytes(),
            XaamInstructionView::RegisterAgent { name, description, agent_type, public_key } => (
                name,
                (description, (agent_type, public_key)),
            ).wire_bytes(),
            XaamInstructionView::RegisterJudge {
                name,
                description,
                public_key,
                specialization,
            } => (name, (description, (public_key, specialization))).wire_bytes(),
            XaamInstructionView::StakeOnTask { amount } => amount.wire_bytes(),
            XaamInstructionView::SubmitDeliverable { encrypted_content_url, encryption_keys } => (
                encrypted_content_url,
                encryption_keys,
            ).wire_bytes(),
            XaamInstructionView::JudgeDeliverable { score, feedback } => (
                score,
                feedback,
            ).wire_bytes(),
            XaamInstructionView::CompleteTask {  } => Seq::empty(),
            XaamInstructionView::ReturnStake {  } => Seq::empty(),
            XaamInstructionView::BurnTaskNFT {  } => Seq::empty(),
        }
    }

    /// Whether the fields can travel: no text and no list is too long.
    pub open spec fn payload_ok(self) -> bool {
        match self {
            XaamInstructionView::InitializeTask {
                title,
                summary,
                encrypted_payload_url,
                deadline,
                reward_amount,
                reward_currency,
                judges,
            } => (
                title,
                (
                    summary,
                    (encrypted_payload_url, (deadline, (reward_amount, (reward_currency, judges)))),
                ),
            ).wire_ok(),
            XaamInstructionView::RegisterAgent { name, description, agent_type, public_key } => (
                name,
                (description, (agent_type, public_key)),
            ).wire_ok(),
            XaamInstructionView::RegisterJudge {
                name,
                description,
                public_key,
                specialization,
            } => (name, (description, (public_key, specialization))).wire_ok(),
            XaamInstructionView::StakeOnTask { amount } => true,
            XaamInstructionView::SubmitDeliverable { encrypted_content_url, encryption_keys } => (
                encrypted_content_url,
                encryption_keys,
            ).wire_ok(),
            XaamInstructionView::JudgeDeliverable { score, feedback } => (
                score,
                feedback,
            ).wire_ok(),
            XaamInstructionView::CompleteTask {  } => true,
            XaamInstructionView::ReturnStake {  } => true,
            XaamInstructionView::BurnTaskNFT {  } => true,
        }
    }

    /// Reads the fields of the variant that `tag` tells off the front of `b`.
    pub open spec fn parse_payload(tag: u8, b: Seq<u8>) -> Option<(XaamInstructionView, int)> {
        if tag == 0 {
            match InitializeTaskWire::wire_parse(b) {
                None => None,
                Some((t, n)) => Some(
                    (
                        XaamInstructionView::InitializeTask {
                            title: t.0,
                            summary: t.1.0,
                            encrypted_payload_url: t.1.1.0,
                            deadline: t.1.1.1.0,
                            reward_amount: t.1.1.1.1.0,
                            reward_currency: t.1.1.1.1.1.0,
                            judges: t.1.1.1.1.1.1,
                        },
                        n,
                    ),
                ),
            }
        } else if tag == 1 {
            match RegisterAgentWire::wire_parse(b) {
                None => None,
                Some((t, n)) => Some(
                    (
                        XaamInstructionView::RegisterAgent {
                            name: t.0,
                            description: t.1.0,
                            agent_type: t.1.1.0,
                            public_key: t.1.1.1,
                        },
                        n,
                    ),
                ),
            }
        } else if tag == 2 {
            match RegisterJudgeWire::wire_parse(b) {
                None => None,
                Some((t, n)) => Some(
                    (
                        XaamInstructionView::RegisterJudge {
                            name: t.0,
                            description: t.1.0,
                            public_key: t.1.1.0,
                            specialization: t.1.1.1,
                        },
                        n,
                    ),
                ),
            }
        } else if tag == 3 {
            match u64::wire_parse(b) {
                None => None,
                Some((amount, n)) => Some((XaamInstructionView::StakeOnTask { amount }, n)),
            }
        } else if tag == 4 {
            match SubmitDeliverableWire::wire_parse(b) {
                None => None,
                Some((t, n)) => Some(
                    (
                        XaamInstructionView::SubmitDeliverable {
                            encrypted_content_url: t.0,
                            encryption_keys: t.1,
                        },
                        n,
                    ),
                ),
            }
        } else if tag == 5 {
            match JudgeDeliverableWire::wire_parse(b) {
                None => None,
                Some((t, n)) => Some(
                    (XaamInstructionView::JudgeDeliverable { score: t.0, feedback: t.1 }, n),
                ),
            }
        } else if tag == 6 {
            Some((XaamInstructionView::CompleteTask {  }, 0))
        } else if tag == 7 {
            Some((XaamInstructionView::ReturnStake {  }, 0))
        } else if tag == 8 {
            Some((XaamInstructionView::BurnTaskNFT {  }, 0))
        } else {
            None
        }
    }

    /// Reading the fields that were written gives the instruction back.
    pub proof fn lemma_parse_payload(self, rest: Seq<u8>)
        requires
            self.payload_ok(),
        ensures
            XaamInstructionView::parse_payload(self.tag(), self.payload() + rest) == Some(
                (self, self.payload().len() as int),
            ),
    {
        match self {
            XaamInstructionView::InitializeTask {
                title,
                summary,
                encrypted_payload_url,
                deadline,
                reward_amount,
                reward_currency,
                judges,
            } => {
                let t: InitializeTaskWire = (
                    title,
                    (
                        summary,
                        (
                            encrypted_payload_url,
                            (deadline, (reward_amount, (reward_currency, judges))),
                        ),
                    ),
                );
                t.lemma_parse_bytes(rest);
            },
            XaamInstructionView::RegisterAgent { name, description, agent_type, public_key } => {
                let t: RegisterAgentWire = (name, (description, (agent_type, public_key)));
                t.lemma_parse_bytes(rest);
            },
            XaamInstructionView::RegisterJudge {
                name,
                description,
                public_key,
                specialization,
            } => {
                let t: RegisterJudgeWire = (name, (description, (public_key, specialization)));
                t.lemma_parse_bytes(rest);
            },
            XaamInstructionView::StakeOnTask { amount } => {
                amount.lemma_parse_bytes(rest);
            },
            XaamInstructionView::SubmitDeliverable { encrypted_content_url, encryption_keys } => {
                let t: SubmitDeliverableWire = (encrypted_content_url, encryption_keys);
                t.lemma_parse_bytes(rest);
            },
            XaamInstructionView::JudgeDeliverable { score, feedback } => {
                let t: JudgeDeliverableWire = (score, feedback);
                t.lemma_parse_bytes(rest);
            },
            XaamInstructionView::CompleteTask {  } => {},
            XaamInstructionView::ReturnStake {  } => {},
            XaamInstructionView::BurnTaskNFT {  } => {},
        }
    }

    /// The fields read are the fields written in the bytes consumed, and
    /// the variant is the one that the tag tells.
    pub proof fn lemma_payload_parse(tag: u8, b: Seq<u8>)
        ensures
            XaamInstructionView::parse_payload(tag, b) matches Some((v, n)) ==> v.payload_ok()
                && v.tag() == tag && 0 <= n <= b.len() && b.subrange(0, n) == v.payload(),
    {
        if tag == 0 {
            InitializeTaskWire::lemma_bytes_parse(b);
        } else if tag == 1 {
            RegisterAgentWire::lemma_bytes_parse(b);
        } else if tag == 2 {
            RegisterJudgeWire::lemma_bytes_parse(b);
        } else if tag == 3 {
            u64::lemma_bytes_parse(b);
        } else if tag == 4 {
            SubmitDeliverableWire::lemma_bytes_parse(b);
        } else if tag == 5 {
            JudgeDeliverableWire::lemma_bytes_parse(b);
        } else if tag <= 8 {
            assert(b.subrange(0, 0) =~= Seq::<u8>::empty());
        }
    }
}

impl Wire for XaamInstructionView {
    open spec fn wire_ok(self) -> bool {
        self.payload_ok()
    }

    open spec fn wire_bytes(self) -> Seq<u8> {
        seq![self.tag()] + self.payload()
    }

    open spec fn wire_parse(b: Seq<u8>) -> Option<(XaamInstructionView, int)> {
        if b.len() >= 1 {
            match XaamInstructionView::parse_payload(b[0], b.skip(1)) {
                None => None,
                Some((v, n)) => Some((v, 1 + n)),
            }
        } else {
            None
        }
    }

    proof fn lemma_parse_bytes(self, rest: Seq<u8>) {
        let b = self.wire_bytes() + rest;
        assert(b.skip(1) =~= self.payload() + rest);
        self.lemma_parse_payload(rest);
    }

    proof fn lemma_bytes_parse(b: Seq<u8>) {
        if b.len() >= 1 {
            XaamInstructionView::lemma_payload_parse(b[0], b.skip(1));
            if let Some((v, n)) = XaamInstructionView::parse_payload(b[0], b.skip(1)) {
                assert(b.subrange(0, 1 + n) =~= seq![b[0]] + b.skip(1).subrange(0, n));
            }
        }
    }
}

impl Encode for XaamInstruction {
    type Model = XaamInstructionView;

    open spec fn model(&self) -> XaamInstructionView {
        self@
    }

    fn fits(&self) -> (ok: bool) {
        assert(self.model().wire_ok() == self@.payload_ok());
        match self {
            XaamInstruction::InitializeTask {
                title,
                summary,
                encrypted_payload_url,
                deadline,
                reward_amount,
                reward_currency,
                judges,
            } => {
                assert(judges.model() =~= judges@);
                title.fits() && summary.fits() && encrypted_payload_url.fits()
                    && reward_currency.fits() && judges.fits()
            },
            XaamInstruction::RegisterAgent { name, description, agent_type, public_key } => {
                name.fits() && description.fits() && public_key.fits()
            },
            XaamInstruction::RegisterJudge { name, description, public_key, specialization } => {
                name.fits() && description.fits() && public_key.fits() && specialization.fits()
            },
            XaamInstruction::StakeOnTask { amount } => true,
            XaamInstruction::SubmitDeliverable { encrypted_content_url, encryption_keys } => {
                encrypted_content_url.fits() && encryption_keys.fits()
            },
            XaamInstruction::JudgeDeliverable { score, feedback } => feedback.fits(),
            XaamInstruction::CompleteTask {  } => true,
            XaamInstruction::ReturnStake {  } => true,
            XaamInstruction::BurnTaskNFT {  } => true,
        }
    }

    fn put(&self, out: &mut Vec<u8>) {
        assert(self.model().wire_bytes() == seq![self@.tag()] + self@.payload());
        assert(self@.payload_ok());
        match self {
            XaamInstruction::InitializeTask {
                title,
                summary,
                encrypted_payload_url,
                deadline,
                reward_amount,
                reward_currency,
                judges,
            } => {
                assert(judges.model() =~= judges@);
                out.push(0);
                (
                    title,
                    (
                        summary,
                        (
                            encrypted_payload_url,
                            (deadline, (reward_amount, (reward_currency, judges))),
                        ),
                    ),
                ).put(out);
                assert(out@ =~= old(out)@ + (seq![0u8] + self@.payload()));
            },
            XaamInstruction::RegisterAgent { name, description, agent_type, public_key } => {
                out.push(1);
                (name, (description, (agent_type, public_key))).put(out);
                assert(out@ =~= old(out)@ + (seq![1u8] + self@.payload()));
            },
            XaamInstruction::RegisterJudge { name, description, public_key, specialization } => {
                out.push(2);
                (name, (description, (public_key, specialization))).put(out);
                assert(out@ =~= old(out)@ + (seq![2u8] + self@.payload()));
            },
            XaamInstruction::StakeOnTask { amount } => {
                out.push(3);
                amount.put(out);
                assert(out@ =~= old(out)@ + (seq![3u8] + self@.payload()));
            },
            XaamInstruction::SubmitDeliverable { encrypted_content_url, encryption_keys } => {
                out.push(4);
                (encrypted_content_url, encryption_keys).put(out);
                assert(out@ =~= old(out)@ + (seq![4u8] + self@.payload()));
            },
            XaamInstruction::JudgeDeliverable { score, feedback } => {
                out.push(5);
                (score, feedback).put(out);
                assert(out@ =~= old(out)@ + (seq![5u8] + self@.payload()));
            },
            XaamInstruction::CompleteTask {  } => {
                out.push(6);
                assert(out@ =~= old(out)@ + (seq![6u8] + self@.payload()));
            },
            XaamInstruction::ReturnStake {  } => {
                out.push(7);
                assert(out@ =~= old(out)@ + (seq![7u8] + self@.payload()));
            },
            XaamInstruction::BurnTaskNFT {  } => {
                out.push(8);
                assert(out@ =~= old(out)@ + (seq![8u8] + self@.payload()));
            },
        }
    }
}

impl Decode for XaamInstruction {
    fn take(data: &[u8], pos: usize) -> (r: Option<(XaamInstruction, usize)>) {
        if pos >= data.len() {
            return None;
        }
        let tag = data[pos];
        let ghost b = data@.skip(pos as int);
        assert(b.skip(1) =~= data@.skip(pos + 1));
        assert(XaamInstructionView::wire_parse(b) == match XaamInstructionView::parse_payload(
            tag,
            b.skip(1),
        ) {
            None => None,
            Some((v, n)) => Some((v, 1 + n)),
        });
        match tag {
            0 => match InitializeTaskParts::take(data, pos + 1) {
                None => None,
                Some((parts, next)) => {
                    let (
                        title,
                        (
                            summary,
                            (
                                encrypted_payload_url,
                                (deadline, (reward_amount, (reward_currency, judges))),
                            ),
                        ),
                    ) = parts;
                    assert(judges.model() =~= judges@);
                    Some(
                        (
                            XaamInstruction::InitializeTask {
                                title,
                                summary,
                                encrypted_payload_url,
                                deadline,
                                reward_amount,
                                reward_currency,
                                judges,
                            },
                            next,
                        ),
                    )
                },
            },
            1 => match RegisterAgentParts::take(data, pos + 1) {
                None => None,
                Some((parts, next)) => {
                    let (name, (description, (agent_type, public_key))) = parts;
                    Some(
                        (
                            XaamInstruction::RegisterAgent {
                                name,
                                description,
                                agent_type,
                                public_key,
                            },
                            next,
                        ),
                    )
                },
            },
            2 => match RegisterJudgeParts::take(data, pos + 1) {
                None => None,
                Some((parts, next)) => {
                    let (name, (description, (public_key, specialization))) = parts;
                    Some(
                        (
                            XaamInstruction::RegisterJudge {
                                name,
                                description,
                                public_key,
                                specialization,
                            },
                            next,
                        ),
                    )
                },
            },
            3 => match u64::take(data, pos + 1) {
                None => None,
                Some((amount, next)) => Some((XaamInstruction::StakeOnTask { amount }, next)),
            },
            4 => match SubmitDeliverableParts::take(data, pos + 1) {
                None => None,
                Some((parts, next)) => {
                    let (encrypted_content_url, encryption_keys) = parts;
                    Some(
                        (
                            XaamInstruction::SubmitDeliverable {
                                encrypted_content_url,
                                encryption_keys,
                            },
                            next,
                        ),
                    )
                },
            },
            5 => match JudgeDeliverableParts::take(data, pos + 1) {
                None => None,
                Some((parts, next)) => {
                    let (score, feedback) = parts;
                    Some((XaamInstruction::JudgeDeliverable { score, feedback }, next))
                },
            },
            6 => Some((XaamInstruction::CompleteTask {  }, pos + 1)),
            7 => Some((XaamInstruction::ReturnStake {  }, pos + 1)),
            8 => Some((XaamInstruction::BurnTaskNFT {  }, pos + 1)),
            _ => None,
        }
    }
}

impl XaamInstruction {
    /// Decodes an instruction from the bytes of a request. The bytes must be
    /// the tag of a variant and the fields of that variant, and nothing
    /// more: anything else is refused with `InvalidInstructionData`.
    pub fn unpack(data: &[u8]) -> (r: Result<XaamInstruction, XaamError>)
        ensures
            match r {
                Ok(instruction) => decode_all::<XaamInstructionView>(data@) == Some(instruction@),
                Err(e) => e == XaamError::InvalidInstructionData && decode_all::<
                    XaamInstructionView,
                >(data@) is None,
            },
    {
        match from_payload::<XaamInstruction>(data) {
            Some(instruction) => Ok(instruction),
            None => Err(XaamError::InvalidInstructionData),
        }
    }

    /// The bytes of the instruction, as a request carries them.
    pub fn pack(&self) -> (data: Vec<u8>)
        requires
            self@.wire_ok(),
        ensures
            data@ == self@.wire_bytes(),
    {
        let mut data: Vec<u8> = Vec::new();
        self.put(&mut data);
        assert(data@ =~= self@.wire_bytes());
        data
    }
}

/// An account that an instruction names, and what it may do with it.
#[derive(Clone, Copy, Debug, PartialEq, Eq)]
pub struct AccountMeta {
    /// The account's key.
    pub pubkey: Pubkey,
    /// Whether the account must have signed the request.
    pub is_signer: bool,
    /// Whether the instruction may change the account.
    pub is_writable: bool,
}

impl AccountMeta {
    /// An account that the instruction may change.
    pub fn new(pubkey: Pubkey, is_signer: bool) -> (meta: AccountMeta)
        ensures
            meta == (AccountMeta { pubkey, is_signer, is_writable: true }),
    {
        AccountMeta { pubkey, is_signer, is_writable: true }
    }

    /// An account that the instruction only reads.
    pub fn new_readonly(pubkey: Pubkey, is_signer: bool) -> (meta: AccountMeta)
        ensures
            meta == (AccountMeta { pubkey, is_signer, is_writable: false }),
    {
        AccountMeta { pubkey, is_signer, is_writable: false }
    }
}

/// A request, ready to be sent: the program it is for, the accounts it
/// names in the order in which the program reads them, and the bytes of
/// the instruction.
#[derive(Clone, Debug, PartialEq, Eq)]
pub struct Instruction {
    pub program_id: Pubkey,
    pub accounts: Vec<AccountMeta>,
    pub data: Vec<u8>,
}

/// The bytes of the key of the host's system program.
pub open spec fn system_program_key() -> Seq<u8> {
    seq![
        0u8, 0, 0, 0, 0, 0, 0, 0, 0, 0, 0, 0, 0, 0, 0, 0, 0, 0, 0, 0, 0, 0, 0, 0, 0, 0, 0, 0, 0, 0, 0, 0,
    ]
}

/// The bytes of the key of the host's rent sysvar.
pub open spec fn rent_sysvar_key() -> Seq<u8> {
    seq![
        6u8, 167, 213, 23, 25, 44, 92, 81, 33, 140, 201, 76, 61, 74, 241, 127, 88, 218, 238, 8, 155,
        161, 253, 68, 227, 219, 217, 138, 0, 0, 0, 0,
    ]
}

/// The bytes of the key of the host's token program.
pub open spec fn token_program_key() -> Seq<u8> {
    seq![
        6u8, 221, 246, 225, 215, 101, 161, 147, 217, 203, 225, 70, 206, 235, 121, 172, 28, 180, 133,
        237, 95, 91, 55, 145, 58, 140, 245, 133, 126, 255, 0, 169,
    ]
}

/// Whether `meta` names the account of the host whose key has the given
/// bytes, for reading only and without asking for its signature.
pub open spec fn names_host_account(meta: AccountMeta, key: Seq<u8>) -> bool {
    meta.pubkey.bytes@ == key && !meta.is_signer && !meta.is_writable
}

/// `solana_program::system_program::id`: the key that the host declares
/// for its system program, `11111111111111111111111111111111`, which is 32
/// zero bytes.
#[verifier::external_body]
fn system_program_id() -> (id: Pubkey)
    ensures
        id.bytes@ == system_program_key(),
{
    Pubkey { bytes: solana_program::system_program::id().to_bytes() }
}

/// `solana_program::sysvar::rent::id`: the key that the host declares for
/// its rent sysvar, `SysvarRent111111111111111111111111111111111`. The
/// bytes claimed are that name, read as base 58.
#[verifier::external_body]
fn rent_sysvar_id() -> (id: Pubkey)
    ensures
        id.bytes@ == rent_sysvar_key(),
{
    Pubkey { bytes: solana_program::sysvar::rent::id().to_bytes() }
}

/// `spl_token::id`: the key that the token program declares for itself,
/// `TokenkegQfeZyiNwAJbNbGKPFXCWuBvf9Ss623VQ5DA`. The bytes claimed are
/// that name, read as base 58.
#[verifier::external_body]
fn token_program_id() -> (id: Pubkey)
    ensures
        id.bytes@ == token_program_key(),
{
    Pubkey { bytes: spl_token::id().to_bytes() }
}

/// Create InitializeTask instruction
pub fn initialize_task(
    program_id: &Pubkey,
    creator: &Pubkey,
    task: &Pubkey,
    nft_mint: &Pubkey,
    title: String,
    summary: String,
    encrypted_payload_url: String,
    deadline: i64,
    reward_amount: u64,
    reward_currency: String,
    judges: Vec<Pubkey>,
) -> (request: Instruction)
    requires
        title@.wire_ok(),
        summary@.wire_ok(),
        encrypted_payload_url@.wire_ok(),
        reward_currency@.wire_ok(),
        judges@.len() <= u32::MAX,
    ensures
        request.program_id == *program_id,
        request.accounts@.len() == 6,
        request.accounts@[0] == (AccountMeta {
            pubkey: *creator,
            is_signer: true,
            is_writable: true,
        }),
        request.accounts@[1] == (AccountMeta {
            pubkey: *task,
            is_signer: false,
            is_writable: true,
        }),
        request.accounts@[2] == (AccountMeta {
            pubkey: *nft_mint,
            is_signer: false,
            is_writable: true,
        }),
        names_host_account(request.accounts@[3], rent_sysvar_key()),
        names_host_account(request.accounts@[4], token_program_key()),
        names_host_account(request.accounts@[5], system_program_key()),
        request.data@ == (XaamInstructionView::InitializeTask {
            title: title@,
            summary: summary@,
            encrypted_payload_url: encrypted_payload_url@,
            deadline,
            reward_amount,
            reward_currency: reward_currency@,
            judges: judges@,
        }).wire_bytes(),
{
    let data = XaamInstruction::InitializeTask {
        title,
        summary,
        encrypted_payload_url,
        deadline,
        reward_amount,
        reward_currency,
        judges,
    };
    let mut accounts: Vec<AccountMeta> = Vec::new();
    accounts.push(AccountMeta::new(*creator, true));
    accounts.push(AccountMeta::new(*task, false));
    accounts.push(AccountMeta::new(*nft_mint, false));
    accounts.push(AccountMeta::new_readonly(rent_sysvar_id(), false));
    accounts.push(AccountMeta::new_readonly(token_program_id(), false));
    accounts.push(AccountMeta::new_readonly(system_program_id(), false));
    Instruction { program_id: *program_id, accounts, data: data.pack() }
}

/// Create RegisterAgent instruction
pub fn register_agent(
    program_id: &Pubkey,
    agent_owner: &Pubkey,
    agent_account: &Pubkey,
    name: String,
    description: String,
    agent_type: AgentType,
    public_key: String,
) -> (request: Instruction)
    requires
        name@.wire_ok(),
        description@.wire_ok(),
        public_key@.wire_ok(),
    ensures
        request.program_id == *program_id,
        request.accounts@.len() == 4,
        request.accounts@[0] == (AccountMeta {
            pubkey: *agent_owner,
            is_signer: true,
            is_writable: true,
        }),
        request.accounts@[1] == (AccountMeta {
            pubkey: *agent_account,
            is_signer: false,
            is_writable: true,
        }),
        names_host_account(request.accounts@[2], rent_sysvar_key()),
        names_host_account(request.accounts@[3], system_program_key()),
        request.data@ == (XaamInstructionView::RegisterAgent {
            name: name@,
            description: description@,
            agent_type,
            public_key: public_key@,
        }).wire_bytes(),
{
    let data = XaamInstruction::RegisterAgent { name, description, agent_type, public_key };
    let mut accounts: Vec<AccountMeta> = Vec::new();
    accounts.push(AccountMeta::new(*agent_owner, true));
    accounts.push(AccountMeta::new(*agent_account, false));
    accounts.push(AccountMeta::new_readonly(rent_sysvar_id(), false));
    accounts.push(AccountMeta::new_readonly(system_program_id(), false));
    Instruction { program_id: *program_id, accounts, data: data.pack() }
}

/// Create StakeOnTask instruction
pub fn stake_on_task(
    program_id: &Pubkey,
    agent: &Pubkey,
    stake_account: &Pubkey,
    task_account: &Pubkey,
    agent_account: &Pubkey,
    amount: u64,
) -> (request: Instruction)
    ensures
        request.program_id == *program_id,
        request.accounts@.len() == 6,
        request.accounts@[0] == (AccountMeta {
            pubkey: *agent,
            is_signer: true,
            is_writable: true,
        }),
        request.accounts@[1] == (AccountMeta {
            pubkey: *stake_account,
            is_signer: false,
            is_writable: true,
        }),
        request.accounts@[2] == (AccountMeta {
            pubkey: *task_account,
            is_signer: false,
            is_writable: true,
        }),
        request.accounts@[3] == (AccountMeta {
            pubkey: *agent_account,
            is_signer: false,
            is_writable: true,
        }),
        names_host_account(request.accounts@[4], rent_sysvar_key()),
        names_host_account(request.accounts@[5], system_program_key()),
        request.data@ == (XaamInstructionView::StakeOnTask { amount }).wire_bytes(),
{
    let data = XaamInstruction::StakeOnTask { amount };
    let mut accounts: Vec<AccountMeta> = Vec::new();
    accounts.push(AccountMeta::new(*agent, true));
    accounts.push(AccountMeta::new(*stake_account, false));
    accounts.push(AccountMeta::new(*task_account, false));
    accounts.push(AccountMeta::new(*agent_account, false));
    accounts.push(AccountMeta::new_readonly(rent_sysvar_id(), false));
    accounts.push(AccountMeta::new_readonly(system_program_id(), false));
    Instruction { program_id: *program_id, accounts, data: data.pack() }
}

} // verus!
