use program_info::{CodeBlock, Digest, Kernel, KernelError, Program, ProgramInfo};

fn digest_of(seed: u8) -> Digest {
    Digest::new([seed; 32])
}

fn digests_of(seeds: &[u8]) -> Vec<Digest> {
    seeds.iter().map(|seed| digest_of(*seed)).collect()
}

#[test]
fn new_keeps_hash_and_kernel() {
    let hash = digest_of(7);
    let kernel = Kernel::new(digests_of(&[1, 2, 3])).unwrap();
    let info = ProgramInfo::new(hash, kernel.clone());
    assert_eq!(*info.program_hash(), hash);
    assert_eq!(*info.kernel(), kernel);
    assert_eq!(info.program_hash().as_bytes(), [7u8; 32]);
}

#[test]
fn kernel_procedures_are_those_of_the_kernel() {
    let kernel = Kernel::new(digests_of(&[30, 10, 20, 10])).unwrap();
    let expected = kernel.proc_hashes().to_vec();
    let info = ProgramInfo::new(digest_of(0), kernel);
    assert_eq!(info.kernel_procedures(), &expected[..]);
    assert_eq!(info.kernel_procedures(), info.kernel().proc_hashes());
    assert_eq!(info.kernel_procedures(), &digests_of(&[30, 10, 20, 10])[..]);
}

#[test]
fn kernel_keeps_the_given_order() {
    let kernel = Kernel::new(digests_of(&[9, 1, 5, 1, 0])).unwrap();
    assert_eq!(kernel.proc_hashes(), &digests_of(&[9, 1, 5, 1, 0])[..]);
}

#[test]
fn projection_takes_root_hash_and_kernel() {
    let root = CodeBlock::new(digest_of(99));
    let kernel = Kernel::new(digests_of(&[4, 3, 2, 1])).unwrap();
    let program = Program::new(root, kernel.clone());
    assert_eq!(program.root().hash(), digest_of(99));
    assert_eq!(*program.kernel(), kernel);

    let info = ProgramInfo::from_program(program);
    assert_eq!(*info.program_hash(), root.hash());
    assert_eq!(*info.kernel(), kernel);
    assert_eq!(info.kernel_procedures(), &digests_of(&[4, 3, 2, 1])[..]);
    assert_eq!(info, ProgramInfo::new(digest_of(99), kernel));
}

#[test]
fn equality_is_by_both_fields() {
    let kernel_a = Kernel::new(digests_of(&[1, 2])).unwrap();
    let kernel_b = Kernel::new(digests_of(&[2, 1])).unwrap();
    let base = ProgramInfo::new(digest_of(1), kernel_a.clone());

    assert_eq!(base, ProgramInfo::new(digest_of(1), kernel_a.clone()));
    assert_ne!(base, ProgramInfo::new(digest_of(2), kernel_a.clone()));
    assert_ne!(base, ProgramInfo::new(digest_of(1), kernel_b.clone()));
    assert_ne!(base, ProgramInfo::new(digest_of(2), kernel_b));
    assert_ne!(base, ProgramInfo::new(digest_of(1), Kernel::new(digests_of(&[1])).unwrap()));
    assert_ne!(base, ProgramInfo::new(digest_of(1), Kernel::new(digests_of(&[1, 2, 3])).unwrap()));
}

#[test]
fn equality_agrees_with_equality_of_the_parts() {
    let hashes = [digest_of(0), digest_of(1)];
    let kernels = [
        Kernel::default(),
        Kernel::new(digests_of(&[1])).unwrap(),
        Kernel::new(digests_of(&[1, 1])).unwrap(),
    ];
    for h1 in hashes.iter() {
        for k1 in kernels.iter() {
            for h2 in hashes.iter() {
                for k2 in kernels.iter() {
                    let left = ProgramInfo::new(*h1, k1.clone());
                    let right = ProgramInfo::new(*h2, k2.clone());
                    assert_eq!(left == right, h1 == h2 && k1 == k2);
                }
            }
        }
    }
}

#[test]
fn digests_differing_in_one_byte_are_unequal() {
    for position in [0usize, 15, 31] {
        let mut bytes = [3u8; 32];
        bytes[position] = 4;
        assert_ne!(Digest::new(bytes), Digest::new([3u8; 32]));
    }
    assert_eq!(Digest::new([3u8; 32]), Digest::new([3u8; 32]));
}

#[test]
fn default_is_zero_digest_and_empty_kernel() {
    let info = ProgramInfo::default();
    assert_eq!(*info.program_hash(), Digest::new([0u8; 32]));
    assert_eq!(*info.program_hash(), Digest::default());
    assert!(info.kernel_procedures().is_empty());
    assert_eq!(*info.kernel(), Kernel::default());
    assert_eq!(info, ProgramInfo::new(Digest::default(), Kernel::new(Vec::new()).unwrap()));
}

#[test]
fn clone_is_equal_to_its_source() {
    let info = ProgramInfo::new(digest_of(5), Kernel::new(digests_of(&[6, 7])).unwrap());
    let copy = info.clone();
    assert_eq!(copy, info);
    assert_eq!(copy.kernel_procedures(), info.kernel_procedures());
    assert_eq!(copy.to_bytes(), info.to_bytes());
}

#[test]
fn debug_shows_both_fields() {
    let info = ProgramInfo::new(digest_of(5), Kernel::new(digests_of(&[6])).unwrap());
    let text = format!("{:?}", info);
    assert!(text.starts_with("ProgramInfo"));
    assert!(text.contains("program_hash"));
    assert!(text.contains("kernel"));
}

#[test]
fn kernel_takes_up_to_the_limit() {
    let at_limit = Kernel::new(vec![digest_of(1); 255]).unwrap();
    assert_eq!(at_limit.proc_hashes().len(), 255);
    assert_eq!(Kernel::new(vec![digest_of(1); 256]), Err(KernelError::TooManyProcedures));
    assert_eq!(Kernel::new(vec![digest_of(1); 1000]), Err(KernelError::TooManyProcedures));
}

#[test]
fn digest_new_and_as_bytes_agree() {
    let mut bytes = [0u8; 32];
    for (i, byte) in bytes.iter_mut().enumerate() {
        *byte = (i * 7) as u8;
    }
    assert_eq!(Digest::new(bytes).as_bytes(), bytes);
}
