//! Data model: transactions, blocks, files, prompts, events, and their
//! mathematical views.
//!
//! Every exec type has a view made of `Seq<char>` and plain values, so that
//! contracts can speak of the contents of strings and vectors. Snapshot
//! functions produce copies that are equal at the view level.

use vstd::prelude::*;

verus! {

/// Overall lifecycle status of a transaction.
#[derive(Clone, Copy, PartialEq, Eq, Structural, Debug)]
pub enum TransactionStatus {
    Pending,
    Applying,
    Applied,
    PartiallyApplied,
    Committed,
    Reverted,
    Failed,
}

/// Lifecycle status of a prompt.
#[derive(Clone, Copy, PartialEq, Eq, Structural, Debug)]
pub enum PromptStatus {
    Draft,
    Active,
    Completed,
    Archived,
}

/// Per-file apply status, independent of the owning transaction's status.
#[derive(Clone, Copy, PartialEq, Eq, Structural, Debug)]
pub enum FileApplyStatus {
    Pending,
    Applying,
    Applied,
    Failed,
}

/// The kind of change a file carries.
#[derive(Clone, Copy, PartialEq, Eq, Structural, Debug)]
pub enum FileStatus {
    Modified,
    Created,
    Deleted,
    Renamed,
}

/// A named simulation policy controlling timing and failure injection.
#[derive(Clone, Copy, PartialEq, Eq, Structural, Debug)]
pub enum SimulationScenario {
    FastSuccess,
    SimulatedFailure,
    LongRunning,
    PartialFailure,
}

/// The apply status a file starts with when none is given.
pub fn default_file_apply_status() -> (r: FileApplyStatus)
    ensures
        r == FileApplyStatus::Pending,
{
    FileApplyStatus::Pending
}

/// A proposed file change within a transaction.
#[derive(Clone)]
pub struct TransactionFile {
    pub path: String,
    pub status: FileStatus,
    pub apply_status: FileApplyStatus,
    pub error_message: Option<String>,
    pub language: String,
    pub diff: String,
}

/// View of a `TransactionFile`.
#[verifier::ext_equal]
pub ghost struct FileView {
    pub path: Seq<char>,
    pub status: FileStatus,
    pub apply_status: FileApplyStatus,
    pub error_message: Option<Seq<char>>,
    pub language: Seq<char>,
    pub diff: Seq<char>,
}

impl View for TransactionFile {
    type V = FileView;

    open spec fn view(&self) -> FileView {
        FileView {
            path: self.path@,
            status: self.status,
            apply_status: self.apply_status,
            error_message: self.error_message.deep_view(),
            language: self.language@,
            diff: self.diff@,
        }
    }
}

impl DeepView for TransactionFile {
    type V = FileView;

    open spec fn deep_view(&self) -> FileView {
        self.view()
    }
}

/// One ordered unit inside a transaction: inline text or a file change.
#[derive(Clone)]
pub struct TransactionBlock {
    pub block_type: String,
    pub content: Option<String>,
    pub file: Option<TransactionFile>,
}

/// View of a `TransactionBlock`.
#[verifier::ext_equal]
pub ghost struct BlockView {
    pub block_type: Seq<char>,
    pub content: Option<Seq<char>>,
    pub file: Option<FileView>,
}

impl View for TransactionBlock {
    type V = BlockView;

    open spec fn view(&self) -> BlockView {
        BlockView {
            block_type: self.block_type@,
            content: self.content.deep_view(),
            file: self.file.deep_view(),
        }
    }
}

impl DeepView for TransactionBlock {
    type V = BlockView;

    open spec fn deep_view(&self) -> BlockView {
        self.view()
    }
}

/// A reviewable bundle of proposed file changes with an overall status.
#[derive(Clone)]
pub struct Transaction {
    pub id: String,
    pub status: TransactionStatus,
    pub description: String,
    pub timestamp: String,
    pub created_at: String,
    pub prompt_id: String,
    pub parent_id: Option<String>,
    pub is_chain_root: Option<bool>,
    pub author: String,
    pub blocks: Vec<TransactionBlock>,
    pub files: Vec<TransactionFile>,
    pub provider: String,
    pub model: String,
    pub cost: String,
    pub tokens: String,
    pub reasoning: String,
}

/// View of a `Transaction`.
#[verifier::ext_equal]
pub ghost struct TransactionView {
    pub id: Seq<char>,
    pub status: TransactionStatus,
    pub description: Seq<char>,
    pub timestamp: Seq<char>,
    pub created_at: Seq<char>,
    pub prompt_id: Seq<char>,
    pub parent_id: Option<Seq<char>>,
    pub is_chain_root: Option<bool>,
    pub author: Seq<char>,
    pub blocks: Seq<BlockView>,
    pub files: Seq<FileView>,
    pub provider: Seq<char>,
    pub model: Seq<char>,
    pub cost: Seq<char>,
    pub tokens: Seq<char>,
    pub reasoning: Seq<char>,
}

impl View for Transaction {
    type V = TransactionView;

    open spec fn view(&self) -> TransactionView {
        TransactionView {
            id: self.id@,
            status: self.status,
            description: self.description@,
            timestamp: self.timestamp@,
            created_at: self.created_at@,
            prompt_id: self.prompt_id@,
            parent_id: self.parent_id.deep_view(),
            is_chain_root: self.is_chain_root,
            author: self.author@,
            blocks: self.blocks.deep_view(),
            files: self.files.deep_view(),
            provider: self.provider@,
            model: self.model@,
            cost: self.cost@,
            tokens: self.tokens@,
            reasoning: self.reasoning@,
        }
    }
}

impl DeepView for Transaction {
    type V = TransactionView;

    open spec fn deep_view(&self) -> TransactionView {
        self.view()
    }
}

/// A prompt; read-only for this library.
#[derive(Clone)]
pub struct Prompt {
    pub id: String,
    pub title: String,
    pub content: String,
    pub timestamp: String,
    pub status: PromptStatus,
}

/// View of a `Prompt`.
#[verifier::ext_equal]
pub ghost struct PromptView {
    pub id: Seq<char>,
    pub title: Seq<char>,
    pub content: Seq<char>,
    pub timestamp: Seq<char>,
    pub status: PromptStatus,
}

impl View for Prompt {
    type V = PromptView;

    open spec fn view(&self) -> PromptView {
        PromptView {
            id: self.id@,
            title: self.title@,
            content: self.content@,
            timestamp: self.timestamp@,
            status: self.status,
        }
    }
}

impl DeepView for Prompt {
    type V = PromptView;

    open spec fn deep_view(&self) -> PromptView {
        self.view()
    }
}

/// A file-level status change, as delivered to stream subscribers.
#[derive(Clone)]
pub struct FileStatusEvent {
    pub transaction_id: String,
    pub file_path: String,
    pub apply_status: FileApplyStatus,
    pub error_message: Option<String>,
}

/// View of a `FileStatusEvent`.
#[verifier::ext_equal]
pub ghost struct FileEventView {
    pub transaction_id: Seq<char>,
    pub file_path: Seq<char>,
    pub apply_status: FileApplyStatus,
    pub error_message: Option<Seq<char>>,
}

impl View for FileStatusEvent {
    type V = FileEventView;

    open spec fn view(&self) -> FileEventView {
        FileEventView {
            transaction_id: self.transaction_id@,
            file_path: self.file_path@,
            apply_status: self.apply_status,
            error_message: self.error_message.deep_view(),
        }
    }
}

impl DeepView for FileStatusEvent {
    type V = FileEventView;

    open spec fn deep_view(&self) -> FileEventView {
        self.view()
    }
}

/// Request to update several transactions to one status.
pub struct BulkActionRequest {
    pub ids: Vec<String>,
    pub action: TransactionStatus,
}

/// Result of a bulk status update: the ids that were found and updated.
pub struct BulkActionResponse {
    pub success: bool,
    pub updated_ids: Vec<String>,
}

/// Request to set a transaction's status, optionally naming a scenario.
pub struct UpdateStatusRequest {
    pub status: TransactionStatus,
    pub scenario: Option<SimulationScenario>,
}

/// Request to retry a single file of a transaction.
pub struct ReapplyFileRequest {
    pub file_path: String,
}

/// Request to retry every failed file of a transaction.
pub struct ReapplyAllFailedRequest {
    pub transaction_id: String,
}

/// Query parameters of a transaction listing.
pub struct ListQuery {
    pub page: usize,
    pub limit: usize,
    pub search: Option<String>,
    pub status: Option<String>,
}

/// Copies an optional string; the copy has the same view.
pub fn clone_opt_string(o: &Option<String>) -> (r: Option<String>)
    ensures
        r.deep_view() == o.deep_view(),
{
    match o {
        Some(s) => Some(s.clone()),
        None => None,
    }
}

impl TransactionFile {
    /// An owned copy, equal at the view level.
    pub fn snapshot(&self) -> (r: TransactionFile)
        ensures
            r@ == self@,
    {
        TransactionFile {
            path: self.path.clone(),
            status: self.status,
            apply_status: self.apply_status,
            error_message: clone_opt_string(&self.error_message),
            language: self.language.clone(),
            diff: self.diff.clone(),
        }
    }
}

impl TransactionBlock {
    /// An owned copy, equal at the view level.
    pub fn snapshot(&self) -> (r: TransactionBlock)
        ensures
            r@ == self@,
    {
        TransactionBlock {
            block_type: self.block_type.clone(),
            content: clone_opt_string(&self.content),
            file: match &self.file {
                Some(f) => Some(f.snapshot()),
                None => None,
            },
        }
    }
}

impl Transaction {
    /// An owned copy, equal at the view level.
    pub fn snapshot(&self) -> (r: Transaction)
        ensures
            r@ == self@,
    {
        let mut blocks: Vec<TransactionBlock> = Vec::new();
        let mut i: usize = 0;
        while i < self.blocks.len()
            invariant
                i <= self.blocks.len(),
                blocks@.len() == i,
                forall|k: int| 0 <= k < i ==> #[trigger] blocks@[k]@ == self.blocks@[k]@,
            decreases self.blocks.len() - i,
        {
            blocks.push(self.blocks[i].snapshot());
            i = i + 1;
        }
        let mut files: Vec<TransactionFile> = Vec::new();
        let mut j: usize = 0;
        while j < self.files.len()
            invariant
                j <= self.files.len(),
                files@.len() == j,
                forall|k: int| 0 <= k < j ==> #[trigger] files@[k]@ == self.files@[k]@,
            decreases self.files.len() - j,
        {
            files.push(self.files[j].snapshot());
            j = j + 1;
        }
        let r = Transaction {
            id: self.id.clone(),
            status: self.status,
            description: self.description.clone(),
            timestamp: self.timestamp.clone(),
            created_at: self.created_at.clone(),
            prompt_id: self.prompt_id.clone(),
            parent_id: clone_opt_string(&self.parent_id),
            is_chain_root: self.is_chain_root,
            author: self.author.clone(),
            blocks,
            files,
            provider: self.provider.clone(),
            model: self.model.clone(),
            cost: self.cost.clone(),
            tokens: self.tokens.clone(),
            reasoning: self.reasoning.clone(),
        };
        proof {
            assert forall|k: int| 0 <= k < r.blocks@.len() implies r.blocks.deep_view()[k]
                == self.blocks.deep_view()[k] by {
                assert(r.blocks@[k]@ == self.blocks@[k]@);
            }
            assert(r.blocks.deep_view() =~= self.blocks.deep_view());
            assert forall|k: int| 0 <= k < r.files@.len() implies r.files.deep_view()[k]
                == self.files.deep_view()[k] by {
                assert(r.files@[k]@ == self.files@[k]@);
            }
            assert(r.files.deep_view() =~= self.files.deep_view());
            assert(r@ =~= self@);
        }
        r
    }
}

impl Prompt {
    /// An owned copy, equal at the view level.
    pub fn snapshot(&self) -> (r: Prompt)
        ensures
            r@ == self@,
    {
        Prompt {
            id: self.id.clone(),
            title: self.title.clone(),
            content: self.content.clone(),
            timestamp: self.timestamp.clone(),
            status: self.status,
        }
    }
}

impl FileStatusEvent {
    /// An owned copy, equal at the view level.
    pub fn snapshot(&self) -> (r: FileStatusEvent)
        ensures
            r@ == self@,
    {
        FileStatusEvent {
            transaction_id: self.transaction_id.clone(),
            file_path: self.file_path.clone(),
            apply_status: self.apply_status,
            error_message: clone_opt_string(&self.error_message),
        }
    }
}

} // verus!
