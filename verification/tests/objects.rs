use optics::file_transfer::{FileTransferServiceImpl, FILE_CHUNK_SIZE};
use optics::storage::{
    append_chunk, check_s3_status, open_bucket, reference_entry, split_chunks,
    split_whole_chunks, S3Config, S3Request, UploadBuffer, OBJECT_CHUNK_SIZE,
};

#[test]
fn chunks_cover_the_object() {
    let data: Vec<u8> = (0..2500u32).map(|i| (i % 251) as u8).collect();
    let chunks = split_chunks(&data, OBJECT_CHUNK_SIZE);
    assert_eq!(chunks.len(), 3);
    assert_eq!(chunks[0].len(), 1024);
    assert_eq!(chunks[1].len(), 1024);
    assert_eq!(chunks[2].len(), 452);
    assert_eq!(chunks.concat(), data);
    let std_chunks: Vec<Vec<u8>> = data.chunks(1024).map(|c| c.to_vec()).collect();
    assert_eq!(chunks, std_chunks);
}

#[test]
fn chunks_of_empty_and_exact() {
    assert!(split_chunks(&vec![], 1024).is_empty());
    let data = vec![7u8; 2048];
    let chunks = split_chunks(&data, 1024);
    assert_eq!(chunks.len(), 2);
    assert!(chunks.iter().all(|c| c.len() == 1024));
}

#[test]
fn whole_chunks_drop_the_short_tail() {
    let data = vec![1u8; 8192 * 2 + 100];
    let chunks = split_whole_chunks(&data, 8192);
    assert_eq!(chunks.len(), 2);
    assert!(chunks.iter().all(|c| c.len() == 8192));
    assert!(split_whole_chunks(&vec![1u8; 100], 8192).is_empty());
}

#[test]
fn file_service_keeps_its_directory() {
    let s = FileTransferServiceImpl::create("/srv/work".to_string());
    assert_eq!(s.working_dir(), "/srv/work");
    let data: Vec<u8> = (0..(FILE_CHUNK_SIZE * 3)).map(|i| (i % 7) as u8).collect();
    let chunks = s.file_chunks(&data);
    assert_eq!(chunks.len(), 3);
    assert_eq!(chunks.concat(), data);
    assert_eq!(s.missing_file("a.txt"), "File a.txt not found");
}

#[test]
fn upload_parts_are_joined_in_order() {
    let mut u = UploadBuffer::new();
    assert!(u.data.is_empty() && u.object_key.is_empty());
    u.absorb(vec![1, 2], "k1".to_string());
    u.absorb(vec![], "k2".to_string());
    u.absorb(vec![3], "k3".to_string());
    assert_eq!(u.data, vec![1, 2, 3]);
    assert_eq!(u.object_key, "k3");
}

#[test]
fn received_chunks_are_appended() {
    let mut d = vec![9u8];
    append_chunk(&mut d, vec![8, 7]);
    assert_eq!(d, vec![9, 8, 7]);
}

#[test]
fn s3_status_judgement() {
    assert_eq!(check_s3_status(S3Request::Put, 200), Ok(()));
    assert_eq!(check_s3_status(S3Request::Put, 403), Err("Failed to put object to S3"));
    assert_eq!(check_s3_status(S3Request::Get, 404), Err("Failed to get object from S3"));
    assert_eq!(check_s3_status(S3Request::Get, 200), Ok(()));
}

#[test]
fn reference_entry_for_existing_path() {
    let (k, v) = reference_entry("obj", "/data/obj.bin", true, "h1:7051").unwrap();
    assert_eq!(k, "refs/obj");
    let parts: Vec<&str> = v.split('|').collect();
    assert_eq!(parts.len(), 3);
    assert_eq!(parts[0], "/data/obj.bin");
    assert!(parts[1].parse::<u64>().unwrap() > 0);
    assert_eq!(parts[2], "h1:7051");
}

#[test]
fn reference_entry_for_missing_path() {
    assert_eq!(
        reference_entry("obj", "/nope", false, "h1:7051"),
        Err("Path /nope does not exist".to_string())
    );
}

#[test]
fn bucket_from_config() {
    let c = S3Config {
        endpoint: "https://s3.example.org".to_string(),
        path_style: true,
        bucket: "bucket-1".to_string(),
        secret_key: "SECRET-REDACTED".to_string(),
        access_key_id: "key-id".to_string(),
    };
    let b = open_bucket(&c);
    assert_eq!(b.name, "bucket-1");
    assert!(b.is_path_style());
    assert_eq!(b.region.endpoint(), "https://s3.example.org");
    assert_eq!(b.region.to_string(), "");
    assert_eq!(b.access_key().unwrap().as_deref(), Some("key-id"));
    assert_eq!(b.secret_key().unwrap().as_deref(), Some("SECRET-REDACTED"));
    assert_eq!(b.security_token().unwrap(), None);
    assert_eq!(b.session_token().unwrap(), None);
    let mut c2 = c;
    c2.path_style = false;
    assert!(!open_bucket(&c2).is_path_style());
}
