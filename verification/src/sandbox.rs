//! The sandbox: the boundary that keeps every resolved path inside the
//! project root.

use crate::path::lemmas::lemma_join_neutral;
use crate::path::model::{lies_in, normalized, with_part};
use crate::path::NeutralPath;
use vstd::prelude::*;

verus! {

/// Why the sandbox refuses a path.
#[derive(Debug)]
pub enum SandboxError {
    /// The path, given here, lies outside the project root.
    Escape(NeutralPath),
}

/// The project root, which no resolved path may leave.
#[derive(Debug)]
pub struct Sandbox {
    root: NeutralPath,
}

impl Sandbox {
    /// The text of the root.
    pub closed spec fn root_text(&self) -> Seq<char> {
        self.root@
    }

    /// The root is a neutral path.
    pub closed spec fn wf(&self) -> bool {
        self.root.wf()
    }

    /// A sandbox with the given root.
    pub fn new(root: NeutralPath) -> (r: Sandbox)
        requires
            root.wf(),
        ensures
            r.wf(),
            r.root_text() == root@,
    {
        Sandbox { root }
    }

    /// The root.
    pub fn root(&self) -> (r: &NeutralPath)
        requires
            self.wf(),
        ensures
            r@ == self.root_text(),
            r.wf(),
    {
        &self.root
    }

    /// The path that `target` names when read in the directory
    /// `referrer_dir`, provided it lies in the root; otherwise the
    /// escape error with that path.
    pub fn get_path_safe(&self, referrer_dir: &NeutralPath, target: &NeutralPath) -> (r: Result<
        NeutralPath,
        SandboxError,
    >)
        requires
            self.wf(),
            referrer_dir.wf(),
            target.wf(),
        ensures
            r is Ok <==> lies_in(normalized(with_part(referrer_dir@, target@)), self.root_text()),
            r matches Ok(p) ==> p@ == normalized(with_part(referrer_dir@, target@)) && p.wf(),
            r matches Err(SandboxError::Escape(p)) ==> p@ == normalized(
                with_part(referrer_dir@, target@),
            ) && p.wf(),
    {
        proof {
            lemma_join_neutral(referrer_dir@, target@);
        }
        match referrer_dir.join(target.as_str()) {
            Ok(joined) => {
                if joined.is_in_dir(&self.root) {
                    Ok(joined)
                } else {
                    Err(SandboxError::Escape(joined))
                }
            },
            Err(_) => vstd::pervasive::unreached(),
        }
    }
}

} // verus!
