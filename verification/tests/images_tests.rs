use agentkernel::images::{
    images_from_listing, images_to_prune, is_agentkernel_related, prune_summary, sandbox_usage_in,
    ImageInfo,
};

fn image(repository: &str, tag: &str, image_id: &str, size: &str) -> ImageInfo {
    ImageInfo {
        repository: repository.to_string(),
        tag: tag.to_string(),
        image_id: image_id.to_string(),
        size: size.to_string(),
    }
}

#[test]
fn test_image_info_full_name() {
    let img = image("python", "3.12-alpine", "abc123", "45MB");
    assert_eq!(img.full_name(), "python:3.12-alpine");
}

#[test]
fn test_image_info_full_name_none_tag() {
    let img = image("<none>", "<none>", "abc123", "45MB");
    assert_eq!(img.full_name(), "abc123");
}

#[test]
fn listing_parses_tab_separated_lines() {
    let stdout = "agentkernel-tools\tlatest\tid1\t100MB\n\
                  python\t3.12\tid2\t45MB\n\
                  \n\
                  short\tline\n\
                  ubuntu\tagentkernel-base\tid3\t70MB\textra\r\n";
    let all = images_from_listing(stdout, true);
    assert_eq!(all.len(), 3);
    assert_eq!(all[0].repository, "agentkernel-tools");
    assert_eq!(all[0].tag, "latest");
    assert_eq!(all[0].image_id, "id1");
    assert_eq!(all[0].size, "100MB");
    assert_eq!(all[1].full_name(), "python:3.12");
    assert_eq!(all[2].size, "70MB");

    let ours = images_from_listing(stdout, false);
    assert_eq!(ours.len(), 2);
    assert_eq!(ours[0].image_id, "id1");
    assert_eq!(ours[1].image_id, "id3");
}

#[test]
fn listing_of_nothing_is_empty() {
    assert!(images_from_listing("", true).is_empty());
    assert!(images_from_listing("\n\n", false).is_empty());
}

#[test]
fn agentkernel_relation_checks_repository_and_tag() {
    assert!(is_agentkernel_related(&image("agentkernel", "x", "i", "s")));
    assert!(is_agentkernel_related(&image("ghcr.io/me/agentkernel-img", "x", "i", "s")));
    assert!(is_agentkernel_related(&image("ubuntu", "agentkernel-1", "i", "s")));
    assert!(!is_agentkernel_related(&image("ubuntu", "22.04-agentkernel", "i", "s")));
    assert!(!is_agentkernel_related(&image("python", "3.12", "i", "s")));
}

#[test]
fn usage_counts_records_mentioning_the_image() {
    let records = vec![
        "{\"image\":\"python:3.12\"}".to_string(),
        "{\"image\":\"node:20\"}".to_string(),
        "{\"base\":\"python:3.12\",\"x\":1}".to_string(),
    ];
    assert_eq!(sandbox_usage_in(&records, "python:3.12"), 2);
    assert_eq!(sandbox_usage_in(&records, "node:20"), 1);
    assert_eq!(sandbox_usage_in(&records, "alpine"), 0);
    assert_eq!(sandbox_usage_in(&Vec::new(), "alpine"), 0);
}

#[test]
fn prune_removes_only_unused_images() {
    let images = vec![
        image("agentkernel-a", "latest", "id-a", "1MB"),
        image("agentkernel-b", "latest", "id-b", "1MB"),
        image("agentkernel-c", "latest", "id-c", "1MB"),
    ];
    let usage = vec![0, 2, 0];
    assert_eq!(images_to_prune(&images, &usage), vec!["id-a".to_string(), "id-c".to_string()]);
    assert!(images_to_prune(&images, &vec![1, 1, 1]).is_empty());
}

#[test]
fn prune_summary_counts_removed_images() {
    assert_eq!(prune_summary(0), "0 agentkernel image(s) removed");
    assert_eq!(prune_summary(12), "12 agentkernel image(s) removed");
}
