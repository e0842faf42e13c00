use llm_daemon::mode::marat::prompts::{
    tao_instruction, NO_SUDO, ONLY_SINGLE_CODEBLOCK, REMIND_ABOUT_FORMAT,
};
use llm_daemon::mode::marat::{
    after_observation, format_observation, karma_updates, parse_bash_commands,
    process_llm_response, MODE_STR,
};
use llm_daemon::mode::{KarmaSettings, Mode, PromptKarma, ResponseAction};
use llm_daemon::models::{Prompt, PromptId};

#[test]
fn it_parses_commands() {
    let response = "Thought: To find out the home directory, list files in it, and show the current user name and UID, I can use the following commands:

        Action:

        ```bash
        # Find the home directory
        echo $HOME

        # List files in the home directory
        ls $HOME

        # Show the current user name
        whoami

        # Show the current UID
        id -u
        ```
        ";

    assert_eq!(
        Ok("set -e\n\
        # Find the home directory\n\
        echo $HOME\n\
        # List files in the home directory\n\
        ls $HOME\n\
        # Show the current user name\n\
        whoami\n\
        # Show the current UID\n\
        id -u\n"
            .to_string()),
        parse_bash_commands(response)
    );
}

#[test]
fn it_reminds_about_single_codeblock() {
    let response = r#"Thought: The error message suggests that the file `file.txt` does not exist in the directory. To make sure that this file exists, I will first list all files in the current directory with `ls` command.

        Action:

        ```bash
        # Navigate to the directory containing the file
        cd ~/my-project

        # List files in the directory
        ls
        ```

        This should output a list of all files in the directory, including `file.txt` if it exists.

        If the `file.txt` does not exists in the list, it's possible that it has already been deleted.

        However, if you are sure that the file does exist and you still get this error message, make sure that you have the correct file name and check that you have write permissions for the directory.

        If you have write permissions and are still having problems, try using `sudo` before the command to run it with administrator privileges:

        ```bash
        # Remove a file named "file.txt" with sudo
        sudo rm file.txt
        ```

        Be careful while using `sudo` as it has the potential to cause damage to your system if not used correctly."#;

    assert_eq!(
        Err(ONLY_SINGLE_CODEBLOCK),
        parse_bash_commands(response),
    );
}

#[test]
fn it_reminds_about_format() {
    let response = "The output confirms that the file `hello.txt` has been created and has the text `hello world` in it. The task is completed successfully.";

    assert_eq!(
        parse_bash_commands(response),
        Err(REMIND_ABOUT_FORMAT)
    );
}

#[test]
fn it_reminds_about_no_sudo() {
    let response = r#"
        Thought: To achieve the task of creating a new directory, adding a new git project, moving the `hello.txt` file, creating a new branch, and committing the file to it, follow the below steps:

        Action:

        ```bash
        # Create a new directory named "my-git-project"
        mkdir my-git-project

        # Navigate to the new directory
        cd my-git-project

        # Initialize git in the directory
        git init

        # Check if git is installed
        git --version

        # If it is not installed, install it
        sudo apt-get update -y
        sudo apt-get install git -y

        # Move the "hello.txt" file to the new directory
        mv ~/hello.txt .

        # Add the new file to git and commit it to the "main" branch
        git add hello.txt
        git commit -m "Add hello.txt to main branch"
        ```"#;

    assert_eq!(parse_bash_commands(response), Err(NO_SUDO));
}

#[test]
fn parse_reminds_when_empty() {
    assert_eq!(parse_bash_commands(""), Err(REMIND_ABOUT_FORMAT));
    assert_eq!(parse_bash_commands("  \n\t\r\n "), Err(REMIND_ABOUT_FORMAT));
}

#[test]
fn parse_reminds_without_action() {
    let response = "Thought: I will list files.\n```bash\nls\n```\n";
    assert_eq!(parse_bash_commands(response), Err(REMIND_ABOUT_FORMAT));
}

#[test]
fn parse_reminds_when_action_has_no_code_block() {
    let response = "Thought: list.\nAction: run ls\nls\n";
    assert_eq!(parse_bash_commands(response), Err(REMIND_ABOUT_FORMAT));
    let response = "Thought: list.\nAction:\n";
    assert_eq!(parse_bash_commands(response), Err(REMIND_ABOUT_FORMAT));
}

#[test]
fn parse_accepts_unclosed_block_and_crlf() {
    let response = "Thought: list\r\nsome words\r\nAction:\r\n```bash\r\n  ls -la  \r\n\r\npwd\r\n";
    assert_eq!(
        parse_bash_commands(response),
        Ok("set -e\nls -la\npwd\n".to_string())
    );
}

#[test]
fn parse_takes_the_first_action_line() {
    let response = "  Thought: ok\nAction: one\n```\necho a\n```\nAction: two\n";
    assert_eq!(parse_bash_commands(response), Ok("set -e\necho a\n".to_string()));
}

#[test]
fn parse_allows_sudo_inside_a_word_later() {
    let response = "Thought: x\nAction:\n```sh\necho sudo\n```\n";
    assert_eq!(parse_bash_commands(response), Ok("set -e\necho sudo\n".to_string()));
}

#[test]
fn parse_treats_unicode_whitespace_as_blank() {
    let response = "\u{3000}Thought: x\u{a0}\nAction:\u{2003}\n```\n\u{85}whoami\u{2028}\n```";
    assert_eq!(parse_bash_commands(response), Ok("set -e\nwhoami\n".to_string()));
}

fn karma() -> KarmaSettings {
    KarmaSettings {
        default: 100,
        instructive: 400,
        decorative: 10,
        contextual: 200,
    }
}

#[test]
fn final_thought_ends_the_loop() {
    match process_llm_response("Final Thought: all done.", 3, &karma()) {
        ResponseAction::FinishThoughtLoop { limit, params } => {
            assert_eq!(limit, 9);
            assert_eq!(params.llm_response_karma, 200);
        }
        other => panic!("unexpected {other:?}"),
    }
    match process_llm_response("final\nthought", 0, &karma()) {
        ResponseAction::FinishThoughtLoop { limit, .. } => assert_eq!(limit, 3),
        other => panic!("unexpected {other:?}"),
    }
}

#[test]
fn well_formed_response_runs_its_script() {
    let response = "Thought: list\nAction:\n```bash\nls\n```";
    match process_llm_response(response, 2, &karma()) {
        ResponseAction::RunScript { script, thought_loop } => {
            assert_eq!(script, "set -e\nls\n");
            assert_eq!(thought_loop, 2);
        }
        other => panic!("unexpected {other:?}"),
    }
}

#[test]
fn malformed_response_continues_with_reminder() {
    match process_llm_response("I am not sure.", 1, &karma()) {
        ResponseAction::Continue { mode, params } => {
            assert_eq!(
                mode,
                Mode::Marat {
                    next_prompt: REMIND_ABOUT_FORMAT.to_string(),
                    thought_loop: 2,
                    next_prompt_karma: PromptKarma::Decorative,
                }
            );
            assert_eq!(params.llm_response_karma, 0);
        }
        other => panic!("unexpected {other:?}"),
    }
}

#[test]
fn observation_becomes_next_prompt() {
    let (mode, params) = after_observation("status code: 0, stdout: \nok\n", 0, &karma());
    assert_eq!(
        mode,
        Mode::Marat {
            next_prompt: "Observation:\nstatus code: 0, stdout: \nok\n".to_string(),
            thought_loop: 1,
            next_prompt_karma: PromptKarma::Default,
        }
    );
    assert_eq!(params.llm_response_karma, 100);
}

#[test]
fn observation_of_success_and_failure() {
    assert_eq!(
        format_observation("out", "err", true, Some(0), 100),
        "status code: 0, stdout: \nout\nerr"
    );
    assert_eq!(
        format_observation("", "boom", false, Some(127), 100),
        "status code: 127, stderr: \n\nboom"
    );
    assert_eq!(
        format_observation("", "", false, None, 100),
        "status code: 1, stderr: \n\n"
    );
    assert_eq!(
        format_observation("", "", false, Some(-3), 100),
        "status code: -3, stderr: \n\n"
    );
}

#[test]
fn observation_truncates_long_output() {
    let out = "abcdefghij";
    assert_eq!(
        format_observation(out, "xyz", true, Some(0), 4),
        "status code: 0, stdout: \nabcd\n...\nmax log length reached, 10 characters truncated"
    );
    // exactly at the limit: nothing is cut
    assert_eq!(
        format_observation("ab", "c", true, Some(0), 4),
        "status code: 0, stdout: \nab\nc"
    );
    // the cut is counted in chars
    assert_eq!(
        format_observation("é", "", true, Some(0), 2),
        "status code: 0, stdout: \né\n"
    );
    assert_eq!(
        format_observation("ééé", "", true, Some(0), 2),
        "status code: 0, stdout: \néé\n...\nmax log length reached, 2 characters truncated"
    );
}

fn prompt(id: i32, mode: &str, karma: i32) -> Prompt {
    Prompt {
        id: PromptId(id),
        role: "user".to_string(),
        content: String::new(),
        created_at: "2023-05-01 10:00:00".to_string(),
        mode: mode.to_string(),
        karma,
        tokens: 10,
    }
}

#[test]
fn demotion_stops_at_previous_loop() {
    let prompts = vec![
        prompt(9, MODE_STR, 100),  // thought: default -> decorative
        prompt(8, MODE_STR, 10),   // format help: decorative -> 0
        prompt(7, MODE_STR, 400),  // task: instructive -> contextual
        prompt(6, MODE_STR, 57),   // other -> divided by five
        prompt(5, MODE_STR, -57),  // other, negative -> toward zero
        prompt(4, MODE_STR, 200),  // previous loop: stop
        prompt(3, MODE_STR, 100),
    ];
    assert_eq!(
        karma_updates(&prompts, &karma()),
        vec![
            (PromptId(9), 10),
            (PromptId(8), 0),
            (PromptId(7), 200),
            (PromptId(6), 11),
            (PromptId(5), -11),
        ]
    );
}

#[test]
fn demotion_stops_at_other_mode() {
    let prompts = vec![
        prompt(3, MODE_STR, 100),
        prompt(2, "dali", 100),
        prompt(1, MODE_STR, 100),
    ];
    assert_eq!(karma_updates(&prompts, &karma()), vec![(PromptId(3), 10)]);
    assert_eq!(karma_updates(&vec![], &karma()), vec![]);
}

#[test]
fn tao_instruction_holds_task_and_system() {
    let text = tao_instruction("list files", "Ubuntu");
    assert!(text.contains("list files"));
    assert!(text.contains("Ubuntu"));
    assert!(text.find("Ubuntu").unwrap() < text.find("list files").unwrap());
}
