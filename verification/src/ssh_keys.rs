//! Deploy keys: how a key pair for a repository is made by `ssh-keygen`,
//! and what the outcome of its making amounts to.

use crate::error::{AppError, ErrorModel, outcome};
use crate::text::joined;
use vstd::prelude::*;

verus! {

broadcast use vstd::std_specs::vec::group_vec_axioms;

/// The file that holds the private key of a repository's deploy key.
pub open spec fn private_key_file(repo_name: Seq<char>) -> Seq<char> {
    "deploy_key_"@ + repo_name
}

/// The file that holds the public key of a repository's deploy key.
pub open spec fn public_key_file(repo_name: Seq<char>) -> Seq<char> {
    private_key_file(repo_name) + ".pub"@
}

/// The arguments with which `ssh-keygen` makes an Ed25519 key pair without
/// a passphrase in the given file, quietly.
pub open spec fn keygen_arguments(file: Seq<char>) -> Seq<Seq<char>> {
    seq!["-t"@, "ed25519"@, "-f"@, file, "-N"@, ""@, "-q"@]
}

/// How a key pair is made: the program to run with its arguments, and the
/// files in which it leaves the keys.
#[derive(Debug)]
pub struct KeyPairPlan {
    pub program: String,
    pub arguments: Vec<String>,
    pub private_key_path: String,
    pub public_key_path: String,
}

/// Plans the making of the deploy key of a repository.
pub fn generate_key_pair(repo_name: &str) -> (r: KeyPairPlan)
    ensures
        r.program@ == "ssh-keygen"@,
        Seq::new(r.arguments@.len(), |i: int| r.arguments@[i]@) == keygen_arguments(
            private_key_file(repo_name@),
        ),
        r.private_key_path@ == private_key_file(repo_name@),
        r.public_key_path@ == public_key_file(repo_name@),
{
    let private_key_path: String = joined("deploy_key_", repo_name);
    let public_key_path: String = joined(private_key_path.as_str(), ".pub");
    let arguments: Vec<String> = vec![
        "-t".to_string(),
        "ed25519".to_string(),
        "-f".to_string(),
        private_key_path.clone(),
        "-N".to_string(),
        "".to_string(),
        "-q".to_string(),
    ];
    proof {
        assert(Seq::new(arguments@.len(), |i: int| arguments@[i]@) =~= keygen_arguments(
            private_key_file(repo_name@),
        ));
    }
    KeyPairPlan { program: "ssh-keygen".to_string(), arguments, private_key_path, public_key_path }
}

impl KeyPairPlan {
    /// What the making of the key pair amounts to: the two keys where the
    /// program succeeded, and else an error.
    pub fn settle(&self, succeeded: bool, private_key: String, public_key: String) -> (r: Result<
        (String, String),
        AppError,
    >)
        ensures
            match r {
                Ok(keys) => succeeded && keys.0 == private_key && keys.1 == public_key,
                Err(e) => !succeeded && e@ == ErrorModel::Io("ssh-keygen failed"@),
            },
    {
        if succeeded {
            Ok((private_key, public_key))
        } else {
            Err(AppError::Io("ssh-keygen failed".to_string()))
        }
    }
}

} // verus!
