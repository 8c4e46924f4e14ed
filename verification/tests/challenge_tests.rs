use maze_agent::challenge::TeamSecrets;

#[test]
fn test_team_secrets_new() {
    let team_secrets = TeamSecrets::new();
    assert!(team_secrets.is_empty());
}

#[test]
fn test_update_secret() {
    let mut team_secrets = TeamSecrets::new();

    team_secrets.update_secret(1, 42, 10);

    assert_eq!(team_secrets.get(1), Some((42, 10)));
    assert_eq!(team_secrets.get(2), None);

    // A later report replaces the player's secret.
    team_secrets.update_secret(1, 43, 20);
    assert_eq!(team_secrets.get(1), Some((43, 20)));
}

#[test]
fn test_calculate_sum_modulo() {
    let mut team_secrets = TeamSecrets::new();

    team_secrets.update_secret(1, 10, 1);
    team_secrets.update_secret(2, 15, 2);
    team_secrets.update_secret(3, 25, 3);

    let (result, _) = team_secrets.calculate_sum_modulo(7, 0);
    assert_eq!(result, (10 + 15 + 25) % 7);

    let (result, _) = team_secrets.calculate_sum_modulo(10, 0);
    assert_eq!(result, 50 % 10);

    // The accompanying tick is the latest report.
    let (_, latest) = team_secrets.calculate_sum_modulo(7, 99);
    assert_eq!(latest, 3);

    // With nothing on record the sum is zero and the caller's own
    // tick is handed back.
    let empty = TeamSecrets::new();
    assert_eq!(empty.calculate_sum_modulo(7, 99), (0, 99));
}

#[test]
fn test_has_secret_updated_after() {
    let mut team_secrets = TeamSecrets::new();

    let before_update = 100;
    team_secrets.update_secret(1, 99, 150);

    assert!(team_secrets.has_secret_updated_after(before_update));

    let after_update = 200;
    assert!(!team_secrets.has_secret_updated_after(after_update));
}
