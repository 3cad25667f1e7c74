use duga::telegram::attachments::{
    download_name, plan_downloads, sanitize_filename, summarize_attachments, AttachmentInfo,
    AttachmentKind, DownloadedSummary, PlannedDownload,
};

#[test]
fn test_sanitize_filename() {
    assert_eq!(sanitize_filename("hello world.txt"), "hello_world.txt");
    assert_eq!(sanitize_filename("path/to/file"), "path_to_file");
    assert_eq!(sanitize_filename("normal-name.txt"), "normal-name.txt");
}

#[test]
fn sanitize_filename_keeps_unicode_letters() {
    assert_eq!(sanitize_filename("отчёт 1.pdf"), "отчёт_1.pdf");
    assert_eq!(sanitize_filename("a\\b:c"), "a_b_c");
}

#[test]
fn test_summarize_attachments_empty() {
    let summary = summarize_attachments(&[]);
    assert!(summary.is_empty());
}

#[test]
fn summarize_attachments_lines() {
    let files = vec![
        DownloadedSummary { name: Some("doc.pdf".into()), kind: "document".into(), size_label: "11 B".into() },
        DownloadedSummary { name: None, kind: "audio".into(), size_label: "1.0 KB".into() },
    ];
    assert_eq!(
        summarize_attachments(&files),
        "[Attachments:\n- doc.pdf (document, 11 B)\n- unknown (audio, 1.0 KB)\n]"
    );
}

fn att(kind: AttachmentKind, size: u64, name: Option<&str>) -> AttachmentInfo {
    AttachmentInfo { kind, file_id: format!("id-{size}"), size, file_name: name.map(|n| n.to_string()) }
}

#[test]
fn download_names_follow_the_kind() {
    assert_eq!(download_name(42, &att(AttachmentKind::Photo, 1, None)), "photo_42.jpg");
    assert_eq!(download_name(42, &att(AttachmentKind::Voice, 1, Some("x"))), "voice_42.ogg");
    assert_eq!(download_name(42, &att(AttachmentKind::Document, 1, Some("my report.pdf"))), "42_my_report.pdf");
    assert_eq!(download_name(42, &att(AttachmentKind::Document, 1, None)), "42_document");
    assert_eq!(download_name(7, &att(AttachmentKind::Audio, 1, Some("a/b.mp3"))), "7_a_b.mp3");
    assert_eq!(download_name(7, &att(AttachmentKind::Video, 1, None)), "7_video");
}

#[test]
fn downloads_skip_files_over_the_limit() {
    let atts = vec![
        att(AttachmentKind::Photo, 1024 * 1024, None),
        att(AttachmentKind::Document, 1024 * 1024 + 1, Some("big.bin")),
        att(AttachmentKind::Voice, 10, None),
    ];
    let plan = plan_downloads(5, &atts, 1);
    assert_eq!(
        plan,
        vec![
            PlannedDownload { kind: "photo".into(), file_id: "id-1048576".into(), file_name: "photo_5.jpg".into() },
            PlannedDownload { kind: "voice".into(), file_id: "id-10".into(), file_name: "voice_5.ogg".into() },
        ]
    );
    assert!(plan_downloads(5, &atts, 0).is_empty());
}
